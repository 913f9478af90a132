//! One tick of a running Battle Ball game: every player is reported, the
//! tiles they coloured are sent, and those with a walking goal take one
//! step, colouring the tile they reach and scoring for their team.
//!
//! Where a player steps to, and which way it then faces, come from the
//! path finder; the caller hands them in, one per player, in team order.
use vstd::prelude::*;

use crate::codec::{push_vl64, vl64_text};
use crate::games::{Game, GamePlayer, GamePlayerView, GameState, nonempty_teams, team_view, teams_view};
use crate::text::{is_digit, push_char, push_str, split_chars, split_spec, to_chars, trunc_i64, wrap32};

verus! {

/// A grid of rows read as sequences.
pub open spec fn grid_view<T>(g: Seq<Vec<T>>) -> Seq<Seq<T>> {
    Seq::new(g.len(), |i: int| g[i]@)
}

/// Whether cell `(r, c)` exists.
pub open spec fn in_grid<T>(g: Seq<Seq<T>>, r: int, c: int) -> bool {
    0 <= r < g.len() && 0 <= c < g[r].len()
}

/// The rows of a height map: its `\r`-separated lines that are not empty.
pub open spec fn height_rows(m: Seq<char>) -> Seq<Seq<char>> {
    split_spec(m, '\r').filter(non_empty_row())
}

/// Keeps the rows that are not empty.
pub open spec fn non_empty_row() -> spec_fn(Seq<char>) -> bool {
    |row: Seq<char>| row.len() > 0
}

/// The height of a tile: the digit at column `x` of row `y`, or 0.
pub open spec fn height_at(rows: Seq<Seq<char>>, x: int, y: int) -> int {
    if in_grid(rows, y, x) && is_digit(rows[y][x]) {
        rows[y][x] as int - 48
    } else {
        0
    }
}

/// Points for reaching a tile at a colour level, with `active` teams playing.
pub open spec fn level_points(level: int, active: int) -> int {
    if level == 1 {
        active
    } else if level == 2 {
        active * 3
    } else if level == 3 {
        active * 5
    } else if level == 4 {
        active * 7
    } else {
        0
    }
}

/// What a tick has built so far.
pub ghost struct TickState {
    pub teams: Seq<Seq<GamePlayerView>>,
    pub tiles: Seq<Seq<(i32, i32)>>,
    pub blocked: Seq<Seq<bool>>,
    pub scores: Seq<i32>,
    pub players: Seq<char>,
    pub updated: Seq<char>,
    pub moved: Seq<char>,
    pub shown: int,
    pub coloured: int,
    pub moving: int,
    pub ok: bool,
}

/// A player's line in the tick: `H`, room id, x, y, height, rotation, `HM`.
pub open spec fn player_line(p: GamePlayerView) -> Seq<char> {
    seq!['H'] + vl64_text(wrap32(p.room_uid as int)) + vl64_text(p.x as int) + vl64_text(p.y as int)
        + vl64_text(p.h as int) + vl64_text(p.z as int) + seq!['H', 'M']
}

/// The values of a player's line can be encoded.
pub open spec fn player_line_ok(p: GamePlayerView) -> bool {
    wrap32(p.room_uid as int) != i32::MIN && p.x != i32::MIN && p.y != i32::MIN && p.h != i32::MIN
        && p.z != i32::MIN
}

/// The tile under a player's position, each coordinate taken `as usize`.
pub open spec fn tile_under(tiles: Seq<Seq<(i32, i32)>>, x: i32, y: i32) -> bool {
    in_grid(tiles, (y as usize) as int, (x as usize) as int)
}

/// Reporting the tile a player coloured last tick.
pub open spec fn colour_report(s: TickState, p: GamePlayerView) -> (TickState, GamePlayerView) {
    if p.bb_color_tile {
        let q = GamePlayerView { bb_color_tile: false, ..p };
        if tile_under(s.tiles, p.x, p.y) {
            let tile = s.tiles[(p.y as usize) as int][(p.x as usize) as int];
            (
                TickState {
                    updated: s.updated + vl64_text(p.x as int) + vl64_text(p.y as int) + vl64_text(
                        tile.0 as int,
                    ) + vl64_text(tile.1 as int),
                    coloured: s.coloured + 1,
                    ..s
                },
                q,
            )
        } else {
            (s, q)
        }
    } else {
        (s, p)
    }
}

/// Reporting the coloured tile cannot fail.
pub open spec fn colour_report_ok(s: TickState, p: GamePlayerView) -> bool {
    p.bb_color_tile && tile_under(s.tiles, p.x, p.y) ==> {
        &&& p.x != i32::MIN
        &&& p.y != i32::MIN
        &&& 
{
            let tile = s.tiles[(p.y as usize) as int][(p.x as usize) as int];
            tile.0 != i32::MIN && tile.1 != i32::MIN && s.coloured + 1 <= i32::MAX
        }
    }
}

/// Whether the step to `(nx, ny)` is free.
pub open spec fn can_step(blocked: Seq<Seq<bool>>, nx: i32, ny: i32) -> bool {
    nx >= 0 && ny >= 0 && in_grid(blocked, nx as int, ny as int) && !blocked[nx as int][ny as int]
}

/// A tile after team `t` reached it: its level goes up when the team held
/// it, else the team takes it at level 1; a tile at level 4 is left alone.
pub open spec fn claimed_tile(tile: (i32, i32), t: int) -> (i32, i32) {
    if tile.0 == t {
        (tile.0, (tile.1 + 1) as i32)
    } else {
        (t as i32, 1i32)
    }
}

/// A player with a walking goal takes its step (see the module text).
pub open spec fn take_step(
    s: TickState,
    t: int,
    p: GamePlayerView,
    mv: (i32, i32, i32),
    active: int,
    rows: Seq<Seq<char>>,
) -> (TickState, GamePlayerView) {
    let (nx, ny, rot) = mv;
    if can_step(s.blocked, nx, ny) {
        let reached = nx == p.goal_x && ny == p.goal_y;
        let gx = if reached { -1i32 } else { p.goal_x };
        let gy = if reached { -1i32 } else { p.goal_y };
        let (px, py) = ((p.x as usize) as int, (p.y as usize) as int);
        let freed = s.blocked.update(px, s.blocked[px].update(py, false));
        let blocked = freed.update(nx as int, freed[nx as int].update(ny as int, true));
        let q = GamePlayerView {
            goal_x: gx,
            goal_y: gy,
            z: rot,
            x: nx,
            y: ny,
            h: height_at(rows, nx as int, ny as int) as i32,
            ..p
        };
        let s1 = TickState {
            moving: s.moving + 1,
            moved: s.moved + seq!['J'] + vl64_text(wrap32(p.room_uid as int)) + vl64_text(nx as int)
                + vl64_text(ny as int),
            blocked,
            ..s
        };
        if in_grid(s.tiles, ny as int, nx as int) && s.tiles[ny as int][nx as int].1 != 4 {
            let tile = claimed_tile(s.tiles[ny as int][nx as int], t);
            let extra = level_points(tile.1 as int, active);
            (
                TickState {
                    tiles: s.tiles.update(ny as int, s.tiles[ny as int].update(nx as int, tile)),
                    scores: s.scores.update(t, (s.scores[t] + extra) as i32),
                    ..s1
                },
                GamePlayerView { score: (q.score + extra) as i32, bb_color_tile: true, ..q },
            )
        } else {
            (s1, q)
        }
    } else {
        (s, GamePlayerView { goal_x: -1i32, goal_y: -1i32, ..p })
    }
}

/// Taking the step cannot fail: the player stands on the field, and the
/// counters and scores stay within `i32`.
pub open spec fn take_step_ok(s: TickState, t: int, p: GamePlayerView, mv: (i32, i32, i32), active: int) -> bool {
    let (nx, ny, rot) = mv;
    can_step(s.blocked, nx, ny) ==> {
        &&& in_grid(s.blocked, (p.x as usize) as int, (p.y as usize) as int)
        &&& s.moving + 1 <= i32::MAX
        &&& wrap32(p.room_uid as int) != i32::MIN
        &&& (in_grid(s.tiles, ny as int, nx as int) && s.tiles[ny as int][nx as int].1 != 4) ==> {
            let old_tile = s.tiles[ny as int][nx as int];
            let tile = claimed_tile(old_tile, t);
            let extra = level_points(tile.1 as int, active);
            &&& (old_tile.0 == t ==> old_tile.1 < i32::MAX)
            &&& i32::MIN <= extra <= i32::MAX
            &&& t < s.scores.len()
            &&& i32::MIN <= s.scores[t] + extra <= i32::MAX
            &&& i32::MIN <= p.score + extra <= i32::MAX
        }
    }
}

/// One player's part of a tick.
pub open spec fn player_tick(
    s: TickState,
    t: int,
    i: int,
    mv: (i32, i32, i32),
    active: int,
    rows: Seq<Seq<char>>,
) -> TickState {
    let p0 = s.teams[t][i];
    let s0 = TickState { players: s.players + player_line(p0), ..s };
    let (s1, p1) = colour_report(s0, p0);
    let (s2, p2) = if p1.goal_x != -1 {
        take_step(s1, t, p1, mv, active, rows)
    } else {
        (s1, p1)
    };
    let ok = s.ok && player_line_ok(p0) && colour_report_ok(s0, p0) && (p1.goal_x != -1
        ==> take_step_ok(s1, t, p1, mv, active)) && s.shown + 1 <= i32::MAX;
    TickState { teams: s2.teams.update(t, s2.teams[t].update(i, p2)), shown: s2.shown + 1, ok, ..s2 }
}

/// The tick after the first `n` players of team `t`.
pub open spec fn team_tick(
    s: TickState,
    t: int,
    n: int,
    moves: Seq<(i32, i32, i32)>,
    active: int,
    rows: Seq<Seq<char>>,
) -> TickState
    decreases n,
{
    if n <= 0 {
        s
    } else {
        player_tick(team_tick(s, t, n - 1, moves, active, rows), t, n - 1, moves[n - 1], active, rows)
    }
}

/// The tick after the first `n` teams.
pub open spec fn teams_tick(
    s: TickState,
    n: int,
    moves: Seq<Seq<(i32, i32, i32)>>,
    active: int,
    rows: Seq<Seq<char>>,
) -> TickState
    decreases n,
{
    if n <= 0 {
        s
    } else {
        let before = teams_tick(s, n - 1, moves, active, rows);
        team_tick(before, n - 1, moves[n - 1].len() as int, moves[n - 1], active, rows)
    }
}

/// The moves of each team, read as sequences.
pub open spec fn moves_view(m: Seq<Vec<(i32, i32, i32)>>) -> Seq<Seq<(i32, i32, i32)>> {
    grid_view(m)
}

/// What a tick starts from.
pub open spec fn tick_start(g: Game) -> TickState {
    TickState {
        teams: teams_view(g.teams@),
        tiles: grid_view(g.battle_ball_tiles@),
        blocked: grid_view(g.blocked_tiles@),
        scores: g.team_scores@,
        players: Seq::empty(),
        updated: Seq::empty(),
        moved: Seq::empty(),
        shown: 0,
        coloured: 0,
        moving: 0,
        ok: true,
    }
}

/// What all players of a tick come to.
pub open spec fn tick_end(g: Game, moves: Seq<Seq<(i32, i32, i32)>>) -> TickState {
    let ts = teams_view(g.teams@);
    teams_tick(tick_start(g), ts.len() as int, moves, nonempty_teams(ts), height_rows(g.heightmap@))
}

/// The team scores, each as VL64.
pub open spec fn scores_line(scores: Seq<i32>) -> Seq<char>
    decreases scores.len(),
{
    if scores.len() == 0 {
        Seq::empty()
    } else {
        scores_line(scores.drop_last()) + vl64_text(scores.last() as int)
    }
}

/// The moves fit the teams: one per player.
pub open spec fn moves_fit(g: Game, moves: Seq<Seq<(i32, i32, i32)>>) -> bool {
    &&& moves.len() == g.teams@.len()
    &&& forall|t: int| 0 <= t < moves.len() ==> #[trigger] moves[t].len() == g.teams@[t]@.len()
}

/// A tick of this game with these moves runs through: every value it
/// writes can be encoded, every counter and score stays within `i32`, and
/// every player that steps stands on the field.
pub open spec fn tick_ok(g: Game, moves: Seq<Seq<(i32, i32, i32)>>) -> bool {
    let e = tick_end(g, moves);
    &&& g.teams@.len() <= i32::MAX
    &&& e.ok
    &&& forall|k: int| 0 <= k < e.scores.len() ==> #[trigger] e.scores[k] != i32::MIN
    &&& (g.tick_phase ==> g.left_time > i64::MIN)
}

/// The game clock after a tick: the phase flips, and the time left drops
/// by one on every second tick (when the phase was set).
pub open spec fn tick_clock(phase: bool, left_time: int) -> (bool, int) {
    (!phase, if phase { left_time - 1 } else { left_time })
}

/// Two ticks take exactly one unit off the time left and bring the phase
/// back to where it was.
pub proof fn law_two_ticks_one_unit(phase: bool, left_time: int)
    ensures
        ({
            let once = tick_clock(phase, left_time);
            tick_clock(once.0, once.1) == (phase, left_time - 1)
        }),
{
}

/// The packet of a tick: `Ct`, the players, the coloured tiles, the team
/// scores, then `I` and the moves.
pub open spec fn tick_packet(g: Game, e: TickState) -> Seq<char> {
    seq!['C', 't'] + vl64_text(e.shown) + e.players + vl64_text(e.coloured) + e.updated + seq!['H']
        + vl64_text(g.teams@.len() as int) + scores_line(e.scores) + seq!['I'] + vl64_text(e.moving)
        + e.moved
}

/// Once a tick fails, it stays failed.
pub(crate) proof fn lemma_team_tick_ok_mono(
    s: TickState,
    t: int,
    n: int,
    moves: Seq<(i32, i32, i32)>,
    active: int,
    rows: Seq<Seq<char>>,
    k: int,
)
    requires
        0 <= k <= n,
        team_tick(s, t, n, moves, active, rows).ok,
    ensures
        team_tick(s, t, k, moves, active, rows).ok,
    decreases n,
{
    if k < n {
        lemma_team_tick_ok_mono(s, t, n - 1, moves, active, rows, k);
    }
}

pub(crate) proof fn lemma_teams_tick_ok_mono(
    s: TickState,
    n: int,
    moves: Seq<Seq<(i32, i32, i32)>>,
    active: int,
    rows: Seq<Seq<char>>,
    k: int,
)
    requires
        0 <= k <= n,
        forall|j: int| 0 <= j < moves.len() ==> #[trigger] moves[j].len() >= 0,
        teams_tick(s, n, moves, active, rows).ok,
    ensures
        teams_tick(s, k, moves, active, rows).ok,
    decreases n,
{
    if k < n {
        let before = teams_tick(s, n - 1, moves, active, rows);
        lemma_team_tick_ok_mono(before, n - 1, moves[n - 1].len() as int, moves[n - 1], active, rows, 0);
        lemma_teams_tick_ok_mono(s, n - 1, moves, active, rows, k);
    }
}

/// The team sizes stay as they are through a tick.
proof fn lemma_team_tick_shape(
    s: TickState,
    t: int,
    n: int,
    moves: Seq<(i32, i32, i32)>,
    active: int,
    rows: Seq<Seq<char>>,
)
    requires
        0 <= t < s.teams.len(),
        0 <= n <= s.teams[t].len(),
    ensures
        team_tick(s, t, n, moves, active, rows).teams.len() == s.teams.len(),
        forall|j: int| 0 <= j < s.teams.len() ==> #[trigger] team_tick(s, t, n, moves, active, rows).teams[j].len() == s.teams[j].len(),
    decreases n,
{
    if n > 0 {
        lemma_team_tick_shape(s, t, n - 1, moves, active, rows);
    }
}

proof fn lemma_teams_tick_shape(
    s: TickState,
    n: int,
    moves: Seq<Seq<(i32, i32, i32)>>,
    active: int,
    rows: Seq<Seq<char>>,
)
    requires
        0 <= n <= s.teams.len(),
        moves.len() == s.teams.len(),
        forall|j: int| 0 <= j < moves.len() ==> #[trigger] moves[j].len() == s.teams[j].len(),
    ensures
        teams_tick(s, n, moves, active, rows).teams.len() == s.teams.len(),
        forall|j: int| 0 <= j < s.teams.len() ==> #[trigger] teams_tick(s, n, moves, active, rows).teams[j].len() == s.teams[j].len(),
    decreases n,
{
    if n > 0 {
        lemma_teams_tick_shape(s, n - 1, moves, active, rows);
        let before = teams_tick(s, n - 1, moves, active, rows);
        lemma_team_tick_shape(before, n - 1, moves[n - 1].len() as int, moves[n - 1], active, rows);
    }
}

/// The counters of a tick never go below zero.
proof fn lemma_team_tick_counts(
    s: TickState,
    t: int,
    n: int,
    moves: Seq<(i32, i32, i32)>,
    active: int,
    rows: Seq<Seq<char>>,
)
    requires
        s.shown >= 0 && s.coloured >= 0 && s.moving >= 0,
    ensures
        ({
            let e = team_tick(s, t, n, moves, active, rows);
            e.shown >= 0 && e.coloured >= 0 && e.moving >= 0
        }),
    decreases n,
{
    if n > 0 {
        lemma_team_tick_counts(s, t, n - 1, moves, active, rows);
    }
}

proof fn lemma_tick_counts_nonneg(
    s: TickState,
    n: int,
    moves: Seq<Seq<(i32, i32, i32)>>,
    active: int,
    rows: Seq<Seq<char>>,
)
    requires
        s.shown >= 0 && s.coloured >= 0 && s.moving >= 0,
    ensures
        ({
            let e = teams_tick(s, n, moves, active, rows);
            e.shown >= 0 && e.coloured >= 0 && e.moving >= 0
        }),
    decreases n,
{
    if n > 0 {
        lemma_tick_counts_nonneg(s, n - 1, moves, active, rows);
        let before = teams_tick(s, n - 1, moves, active, rows);
        lemma_team_tick_counts(before, n - 1, moves[n - 1].len() as int, moves[n - 1], active, rows);
    }
}

// ---------------------------------------------------------------- exec

/// Sets cell `(r, c)` of a grid.
pub(crate) fn set_cell<T: Copy>(grid: &mut Vec<Vec<T>>, r: usize, c: usize, v: T)
    requires
        r < old(grid)@.len(),
        c < old(grid)@[r as int]@.len(),
    ensures
        grid_view(final(grid)@) == grid_view(old(grid)@).update(r as int, grid_view(old(grid)@)[r as int].update(c as int, v)),
{
    let ghost before = grid_view(grid@);
    let n = grid[r].len();
    let mut row: Vec<T> = Vec::new();
    let mut i: usize = 0;
    while i < n
        invariant
            r < grid@.len(),
            n == grid@[r as int]@.len(),
            i <= n,
            row@ =~= grid@[r as int]@.take(i as int),
        decreases n - i,
    {
        row.push(grid[r][i]);
        assert(grid@[r as int]@.take(i + 1) =~= grid@[r as int]@.take(i as int).push(grid@[r as int]@[i as int]));
        i += 1;
    }
    assert(row@ =~= grid@[r as int]@);
    row.set(c, v);
    grid.set(r, row);
    assert(grid_view(grid@) =~= before.update(r as int, before[r as int].update(c as int, v)));
}

/// The non-empty `\r`-separated rows of a height map.
pub(crate) fn height_rows_exec(m: &str) -> (r: Vec<Vec<char>>)
    ensures
        grid_view(r@) == height_rows(m@),
{
    let cs = to_chars(m);
    let pieces = split_chars(cs.as_slice(), '\r');
    let ghost all = split_spec(m@, '\r');
    let mut rows: Vec<Vec<char>> = Vec::new();
    let mut i: usize = 0;
    proof {
        reveal(Seq::filter);
    }
    assert(all.take(0).filter(non_empty_row()) =~= Seq::<Seq<char>>::empty());
    while i < pieces.len()
        invariant
            all == split_spec(m@, '\r'),
            pieces@.len() == all.len(),
            forall|j: int| 0 <= j < pieces@.len() ==> #[trigger] pieces@[j]@ == all[j],
            i <= pieces@.len(),
            grid_view(rows@) == all.take(i as int).filter(non_empty_row()),
        decreases pieces@.len() - i,
    {
        let ghost before = all.take(i as int);
        assert(all.take(i + 1) =~= before.push(all[i as int]));
        proof {
            reveal(Seq::filter);
            assert(all.take(i + 1).drop_last() =~= before);
            assert(all.take(i + 1).last() == all[i as int]);
        }
        if pieces[i].len() > 0 {
            let mut row: Vec<char> = Vec::new();
            let mut k: usize = 0;
            while k < pieces[i].len()
                invariant
                    i < pieces@.len(),
                    k <= pieces@[i as int]@.len(),
                    row@ =~= pieces@[i as int]@.take(k as int),
                decreases pieces@[i as int]@.len() - k,
            {
                row.push(pieces[i][k]);
                assert(pieces@[i as int]@.take(k + 1) =~= pieces@[i as int]@.take(k as int).push(pieces@[i as int]@[k as int]));
                k += 1;
            }
            assert(row@ =~= pieces@[i as int]@);
            let ghost gv = grid_view(rows@);
            rows.push(row);
            assert(grid_view(rows@) =~= gv.push(all[i as int]));
        }
        i += 1;
    }
    assert(all.take(pieces@.len() as int) =~= all);
    rows
}

/// The height of a tile (see `height_at`).
pub(crate) fn height_at_exec(rows: &Vec<Vec<char>>, x: i32, y: i32) -> (r: i32)
    requires
        x >= 0,
        y >= 0,
    ensures
        r as int == height_at(grid_view(rows@), x as int, y as int),
{
    let yu = y as usize;
    let xu = x as usize;
    if yu < rows.len() && xu < rows[yu].len() {
        let c = rows[yu][xu];
        if '0' <= c && c <= '9' {
            return (c as u32 - 48) as i32;
        }
    }
    0
}

/// The exec pieces of a tick that stand for a `TickState`.
pub open spec fn state_of(
    teams: Seq<Seq<GamePlayerView>>,
    tiles: Seq<Vec<(i32, i32)>>,
    blocked: Seq<Vec<bool>>,
    scores: Seq<i32>,
    players: Seq<char>,
    updated: Seq<char>,
    moved: Seq<char>,
    counts: (i32, i32, i32),
    ok: bool,
) -> TickState {
    TickState {
        teams,
        tiles: grid_view(tiles),
        blocked: grid_view(blocked),
        scores,
        players,
        updated,
        moved,
        shown: counts.0 as int,
        coloured: counts.1 as int,
        moving: counts.2 as int,
        ok,
    }
}

/// The text of a tick that is being built.
struct TickText {
    players: String,
    updated: String,
    moved: String,
    counts: (i32, i32, i32),
}

/// The field of a tick that is being changed.
struct TickField {
    tiles: Vec<Vec<(i32, i32)>>,
    blocked: Vec<Vec<bool>>,
    scores: Vec<i32>,
}

/// Appends a player's line to the tick.
fn report_player(p: &GamePlayer, text: &mut TickText)
    requires
        player_line_ok(p@),
    ensures
        final(text).players@ == old(text).players@ + player_line(p@),
        final(text).updated@ == old(text).updated@,
        final(text).moved@ == old(text).moved@,
        final(text).counts == old(text).counts,
{
    push_char(&mut text.players, 'H');
    push_vl64(&mut text.players, trunc_i64(p.room_uid));
    push_vl64(&mut text.players, p.x);
    push_vl64(&mut text.players, p.y);
    push_vl64(&mut text.players, p.h);
    push_vl64(&mut text.players, p.z);
    push_char(&mut text.players, 'H');
    push_char(&mut text.players, 'M');
    assert(text.players@ =~= old(text).players@ + player_line(p@));
}

/// Reports the tile a player coloured last tick (see `colour_report`).
fn report_colour(q: &mut GamePlayer, field: &TickField, text: &mut TickText, Ghost(teams): Ghost<Seq<Seq<GamePlayerView>>>)
    requires
        colour_report_ok(state_of(teams, field.tiles@, field.blocked@, field.scores@, old(text).players@, old(text).updated@, old(text).moved@, old(text).counts, true), old(q)@),
    ensures
        ({
            let s = state_of(teams, field.tiles@, field.blocked@, field.scores@, old(text).players@, old(text).updated@, old(text).moved@, old(text).counts, true);
            colour_report(s, old(q)@) == (state_of(teams, field.tiles@, field.blocked@, field.scores@, final(text).players@, final(text).updated@, final(text).moved@, final(text).counts, true), final(q)@)
        }),
{
    let ghost s = state_of(teams, field.tiles@, field.blocked@, field.scores@, text.players@, text.updated@, text.moved@, text.counts, true);
    if q.bb_color_tile {
        q.bb_color_tile = false;
        let yu = q.y as usize;
        let xu = q.x as usize;
        if yu < field.tiles.len() && xu < field.tiles[yu].len() {
            let tile = field.tiles[yu][xu];
            assert(tile == s.tiles[yu as int][xu as int]);
            push_vl64(&mut text.updated, q.x);
            push_vl64(&mut text.updated, q.y);
            push_vl64(&mut text.updated, tile.0);
            push_vl64(&mut text.updated, tile.1);
            text.counts.1 = text.counts.1 + 1;
            assert(text.updated@ =~= colour_report(s, old(q)@).0.updated);
        }
    }
}

/// Points for a tile level (see `level_points`).
fn level_points_exec(level: i32, active: i32) -> (r: i32)
    requires
        0 <= active,
        i32::MIN <= level_points(level as int, active as int) <= i32::MAX,
    ensures
        r as int == level_points(level as int, active as int),
{
    if level == 1 {
        active
    } else if level == 2 {
        active * 3
    } else if level == 3 {
        active * 5
    } else if level == 4 {
        active * 7
    } else {
        0
    }
}

/// Claims the tile a player stepped onto (the scoring part of `take_step`).
fn claim_tile(q: &mut GamePlayer, t: usize, active: i32, field: &mut TickField, nx: i32, ny: i32)
    requires
        nx >= 0,
        ny >= 0,
        t <= i32::MAX,
        0 <= active,
        ({
            let tiles = grid_view(old(field).tiles@);
            (in_grid(tiles, ny as int, nx as int) && tiles[ny as int][nx as int].1 != 4) ==> {
                let old_tile = tiles[ny as int][nx as int];
                let tile = claimed_tile(old_tile, t as int);
                let extra = level_points(tile.1 as int, active as int);
                &&& (old_tile.0 == t ==> old_tile.1 < i32::MAX)
                &&& i32::MIN <= extra <= i32::MAX
                &&& t < old(field).scores@.len()
                &&& i32::MIN <= old(field).scores@[t as int] + extra <= i32::MAX
                &&& i32::MIN <= old(q).score + extra <= i32::MAX
            }
        }),
    ensures
        final(field).blocked@ == old(field).blocked@,
        ({
            let tiles = grid_view(old(field).tiles@);
            if in_grid(tiles, ny as int, nx as int) && tiles[ny as int][nx as int].1 != 4 {
                let tile = claimed_tile(tiles[ny as int][nx as int], t as int);
                let extra = level_points(tile.1 as int, active as int);
                &&& grid_view(final(field).tiles@) == tiles.update(ny as int, tiles[ny as int].update(nx as int, tile))
                &&& final(field).scores@ == old(field).scores@.update(t as int, (old(field).scores@[t as int] + extra) as i32)
                &&& final(q)@ == GamePlayerView { score: (old(q)@.score + extra) as i32, bb_color_tile: true, ..old(q)@ }
            } else {
                &&& final(field).tiles@ == old(field).tiles@
                &&& final(field).scores@ == old(field).scores@
                &&& final(q)@ == old(q)@
            }
        }),
{
    let nyu = ny as usize;
    let nxu = nx as usize;
    if nyu < field.tiles.len() && nxu < field.tiles[nyu].len() && field.tiles[nyu][nxu].1 != 4 {
        let old_tile = field.tiles[nyu][nxu];
        let tid = t as i32;
        let tile = if old_tile.0 == tid {
            (old_tile.0, old_tile.1 + 1)
        } else {
            (tid, 1i32)
        };
        assert(tile == claimed_tile(old_tile, t as int));
        let extra = level_points_exec(tile.1, active);
        set_cell(&mut field.tiles, nyu, nxu, tile);
        let sc = field.scores[t] + extra;
        field.scores.set(t, sc);
        q.score = q.score + extra;
        q.bb_color_tile = true;
    }
}

/// A player with a walking goal takes its step (see `take_step`).
fn step_player(
    q: &mut GamePlayer,
    t: usize,
    mv: (i32, i32, i32),
    active: i32,
    rows: &Vec<Vec<char>>,
    field: &mut TickField,
    text: &mut TickText,
    Ghost(teams): Ghost<Seq<Seq<GamePlayerView>>>,
)
    requires
        t <= i32::MAX,
        0 <= active,
        take_step_ok(state_of(teams, old(field).tiles@, old(field).blocked@, old(field).scores@, old(text).players@, old(text).updated@, old(text).moved@, old(text).counts, true), t as int, old(q)@, mv, active as int),
    ensures
        ({
            let s = state_of(teams, old(field).tiles@, old(field).blocked@, old(field).scores@, old(text).players@, old(text).updated@, old(text).moved@, old(text).counts, true);
            take_step(s, t as int, old(q)@, mv, active as int, grid_view(rows@)) == (state_of(teams, final(field).tiles@, final(field).blocked@, final(field).scores@, final(text).players@, final(text).updated@, final(text).moved@, final(text).counts, true), final(q)@)
        }),
{
    let ghost s = state_of(teams, field.tiles@, field.blocked@, field.scores@, text.players@, text.updated@, text.moved@, text.counts, true);
    let ghost p = q@;
    let (nx, ny, rot) = mv;
    let can_move = nx >= 0 && ny >= 0 && (nx as usize) < field.blocked.len()
        && (ny as usize) < field.blocked[nx as usize].len() && !field.blocked[nx as usize][ny as usize];
    if can_move {
        text.counts.2 = text.counts.2 + 1;
        push_char(&mut text.moved, 'J');
        push_vl64(&mut text.moved, trunc_i64(q.room_uid));
        push_vl64(&mut text.moved, nx);
        push_vl64(&mut text.moved, ny);
        if nx == q.goal_x && ny == q.goal_y {
            q.goal_x = -1;
            q.goal_y = -1;
        }
        let ghost b0 = grid_view(field.blocked@);
        set_cell(&mut field.blocked, q.x as usize, q.y as usize, false);
        assert(grid_view(field.blocked@).len() == b0.len());
        assert(field.blocked@.len() == b0.len());
        assert(grid_view(field.blocked@)[nx as int].len() == b0[nx as int].len());
        assert(field.blocked@[nx as int]@.len() == grid_view(field.blocked@)[nx as int].len());
        set_cell(&mut field.blocked, nx as usize, ny as usize, true);
        q.z = rot;
        q.x = nx;
        q.y = ny;
        q.h = height_at_exec(rows, nx, ny);
        let ghost s1 = state_of(teams, field.tiles@, field.blocked@, field.scores@, text.players@, text.updated@, text.moved@, text.counts, true);
        assert(text.moved@ =~= s.moved + seq!['J'] + vl64_text(wrap32(p.room_uid as int)) + vl64_text(nx as int) + vl64_text(ny as int));
        claim_tile(q, t, active, field, nx, ny);
    } else {
        q.goal_x = -1;
        q.goal_y = -1;
    }
}

/// One player's part of a tick (see `player_tick`); gives the player as it
/// is afterwards.
fn tick_player(
    p: &GamePlayer,
    t: usize,
    mv: (i32, i32, i32),
    active: i32,
    rows: &Vec<Vec<char>>,
    field: &mut TickField,
    text: &mut TickText,
    Ghost(teams): Ghost<Seq<Seq<GamePlayerView>>>,
    Ghost(i): Ghost<int>,
) -> (q: GamePlayer)
    requires
        0 <= t < teams.len(),
        0 <= i < teams[t as int].len(),
        teams[t as int][i] == p@,
        t <= i32::MAX,
        0 <= active,
        player_tick(state_of(teams, old(field).tiles@, old(field).blocked@, old(field).scores@, old(text).players@, old(text).updated@, old(text).moved@, old(text).counts, true), t as int, i, mv, active as int, grid_view(rows@)).ok,
    ensures
        player_tick(state_of(teams, old(field).tiles@, old(field).blocked@, old(field).scores@, old(text).players@, old(text).updated@, old(text).moved@, old(text).counts, true), t as int, i, mv, active as int, grid_view(rows@))
            == state_of(teams.update(t as int, teams[t as int].update(i, q@)), final(field).tiles@, final(field).blocked@, final(field).scores@, final(text).players@, final(text).updated@, final(text).moved@, final(text).counts, true),
{
    let ghost s = state_of(teams, field.tiles@, field.blocked@, field.scores@, text.players@, text.updated@, text.moved@, text.counts, true);
    let mut q = p.duplicate();
    report_player(&q, text);
    let ghost s0 = state_of(teams, field.tiles@, field.blocked@, field.scores@, text.players@, text.updated@, text.moved@, text.counts, true);
    assert(s0 == TickState { players: s.players + player_line(p@), ..s });
    report_colour(&mut q, field, text, Ghost(teams));
    let ghost s1 = state_of(teams, field.tiles@, field.blocked@, field.scores@, text.players@, text.updated@, text.moved@, text.counts, true);
    let ghost p1 = q@;
    if q.goal_x != -1 {
        step_player(&mut q, t, mv, active, rows, field, text, Ghost(teams));
    }
    let ghost s2 = state_of(teams, field.tiles@, field.blocked@, field.scores@, text.players@, text.updated@, text.moved@, text.counts, true);
    text.counts.0 = text.counts.0 + 1;
    q
}

/// One team's part of a tick (see `team_tick`); gives the team as it is
/// afterwards.
fn tick_team(
    team: &Vec<GamePlayer>,
    t: usize,
    moves: &Vec<(i32, i32, i32)>,
    active: i32,
    rows: &Vec<Vec<char>>,
    field: &mut TickField,
    text: &mut TickText,
    Ghost(teams): Ghost<Seq<Seq<GamePlayerView>>>,
) -> (r: Vec<GamePlayer>)
    requires
        0 <= t < teams.len(),
        t <= i32::MAX,
        0 <= active,
        teams[t as int] == team_view(team@),
        moves@.len() == team@.len(),
        team_tick(state_of(teams, old(field).tiles@, old(field).blocked@, old(field).scores@, old(text).players@, old(text).updated@, old(text).moved@, old(text).counts, true), t as int, team@.len() as int, moves@, active as int, grid_view(rows@)).ok,
    ensures
        team_tick(state_of(teams, old(field).tiles@, old(field).blocked@, old(field).scores@, old(text).players@, old(text).updated@, old(text).moved@, old(text).counts, true), t as int, team@.len() as int, moves@, active as int, grid_view(rows@))
            == state_of(teams.update(t as int, team_view(r@)), final(field).tiles@, final(field).blocked@, final(field).scores@, final(text).players@, final(text).updated@, final(text).moved@, final(text).counts, true),
{
    let ghost before = state_of(teams, field.tiles@, field.blocked@, field.scores@, text.players@, text.updated@, text.moved@, text.counts, true);
    let ghost rv = grid_view(rows@);
    let n = team.len();
    let mut new_team: Vec<GamePlayer> = Vec::new();
    let mut i: usize = 0;
    let ghost mut cur = before;
    assert(team_view(new_team@) + team_view(team@).subrange(0, n as int) =~= team_view(team@));
    assert(teams.update(t as int, team_view(team@)) =~= teams);
    while i < n
        invariant
            n == team@.len(),
            n == moves@.len(),
            0 <= t < teams.len(),
            t <= i32::MAX,
            0 <= active,
            rv == grid_view(rows@),
            teams[t as int] == team_view(team@),
            team_tick(before, t as int, n as int, moves@, active as int, rv).ok,
            i <= n,
            new_team@.len() == i,
            cur == team_tick(before, t as int, i as int, moves@, active as int, rv),
            cur == state_of(teams.update(t as int, team_view(new_team@) + team_view(team@).subrange(i as int, n as int)), field.tiles@, field.blocked@, field.scores@, text.players@, text.updated@, text.moved@, text.counts, true),
        decreases n - i,
    {
        proof {
            lemma_team_tick_ok_mono(before, t as int, n as int, moves@, active as int, rv, i + 1);
        }
        let ghost ts = teams.update(t as int, team_view(new_team@) + team_view(team@).subrange(i as int, n as int));
        assert(ts[t as int][i as int] == team[i as int]@);
        let q = tick_player(&team[i], t, moves[i], active, rows, field, text, Ghost(ts), Ghost(i as int));
        proof {
            cur = team_tick(before, t as int, i + 1, moves@, active as int, rv);
        }
        let ghost nv = team_view(new_team@);
        new_team.push(q);
        assert(ts.update(t as int, ts[t as int].update(i as int, q@)) =~= teams.update(t as int, team_view(new_team@) + team_view(team@).subrange(i + 1, n as int))) by {
            assert(ts[t as int].update(i as int, q@) =~= team_view(new_team@) + team_view(team@).subrange(i + 1, n as int));
        }
        i += 1;
    }
    assert(team_view(new_team@) + team_view(team@).subrange(n as int, n as int) =~= team_view(new_team@));
    new_team
}

/// The team scores line: `H`, the number of teams, then each score.
fn scores_line_exec(scores: &Vec<i32>, team_amount: i32) -> (r: String)
    requires
        team_amount != i32::MIN,
        forall|j: int| 0 <= j < scores@.len() ==> #[trigger] scores@[j] != i32::MIN,
    ensures
        r@ == seq!['H'] + vl64_text(team_amount as int) + scores_line(scores@),
{
    let mut line = String::new();
    push_char(&mut line, 'H');
    push_vl64(&mut line, team_amount);
    let ns = scores.len();
    let mut k: usize = 0;
    assert(scores@.take(0) =~= Seq::<i32>::empty());
    while k < ns
        invariant
            ns == scores@.len(),
            k <= ns,
            forall|j: int| 0 <= j < ns ==> #[trigger] scores@[j] != i32::MIN,
            line@ == seq!['H'] + vl64_text(team_amount as int) + scores_line(scores@.take(k as int)),
        decreases ns - k,
    {
        assert(scores@.take(k + 1).drop_last() =~= scores@.take(k as int));
        push_vl64(&mut line, scores[k]);
        k += 1;
    }
    assert(scores@.take(ns as int) =~= scores@);
    line
}

/// How many teams have players (see `nonempty_teams`).
fn count_active(teams: &Vec<Vec<GamePlayer>>) -> (r: i32)
    requires
        teams@.len() <= i32::MAX,
    ensures
        r as int == nonempty_teams(teams_view(teams@)),
        0 <= r,
{
    let n = teams.len();
    let mut active: i32 = 0;
    let mut c: usize = 0;
    while c < n
        invariant
            n == teams@.len(),
            n <= i32::MAX,
            c <= n,
            active as int == nonempty_teams(teams_view(teams@).take(c as int)),
            0 <= active <= c,
        decreases n - c,
    {
        assert(teams_view(teams@).take(c + 1).drop_last() =~= teams_view(teams@).take(c as int));
        if teams[c].len() > 0 {
            active = active + 1;
        }
        c += 1;
    }
    assert(teams_view(teams@).take(n as int) =~= teams_view(teams@));
    active
}

/// All teams' part of a tick (see `teams_tick`).
fn tick_teams(
    teams: &mut Vec<Vec<GamePlayer>>,
    moves: &Vec<Vec<(i32, i32, i32)>>,
    active: i32,
    rows: &Vec<Vec<char>>,
    field: &mut TickField,
    text: &mut TickText,
)
    requires
        old(teams)@.len() <= i32::MAX,
        0 <= active,
        moves@.len() == old(teams)@.len(),
        forall|j: int| 0 <= j < moves@.len() ==> #[trigger] moves@[j]@.len() == old(teams)@[j]@.len(),
        teams_tick(state_of(teams_view(old(teams)@), old(field).tiles@, old(field).blocked@, old(field).scores@, old(text).players@, old(text).updated@, old(text).moved@, old(text).counts, true), old(teams)@.len() as int, moves_view(moves@), active as int, grid_view(rows@)).ok,
    ensures
        teams_tick(state_of(teams_view(old(teams)@), old(field).tiles@, old(field).blocked@, old(field).scores@, old(text).players@, old(text).updated@, old(text).moved@, old(text).counts, true), old(teams)@.len() as int, moves_view(moves@), active as int, grid_view(rows@))
            == state_of(teams_view(final(teams)@), final(field).tiles@, final(field).blocked@, final(field).scores@, final(text).players@, final(text).updated@, final(text).moved@, final(text).counts, true),
{
    let ghost start = state_of(teams_view(teams@), field.tiles@, field.blocked@, field.scores@, text.players@, text.updated@, text.moved@, text.counts, true);
    let ghost mv = moves_view(moves@);
    let ghost rv = grid_view(rows@);
    let ghost t0 = teams@;
    let n = teams.len();
    let mut t: usize = 0;
    while t < n
        invariant
            n == teams@.len(),
            n == t0.len(),
            n <= i32::MAX,
            0 <= active,
            mv == moves_view(moves@),
            rv == grid_view(rows@),
            moves@.len() == n,
            forall|j: int| 0 <= j < n ==> #[trigger] moves@[j]@.len() == t0[j]@.len(),
            teams_tick(start, n as int, mv, active as int, rv).ok,
            t <= n,
            teams_tick(start, t as int, mv, active as int, rv) == state_of(teams_view(teams@), field.tiles@, field.blocked@, field.scores@, text.players@, text.updated@, text.moved@, text.counts, true),
            forall|j: int| t <= j < n ==> #[trigger] teams@[j] == t0[j],
        decreases n - t,
    {
        proof {
            lemma_teams_tick_ok_mono(start, n as int, mv, active as int, rv, t + 1);
        }
        assert(moves@[t as int]@ == mv[t as int]);
        let new_team = tick_team(&teams[t], t, &moves[t], active, rows, field, text, Ghost(teams_view(teams@)));
        let ghost tv = teams_view(teams@);
        teams.set(t, new_team);
        assert(teams_view(teams@) =~= tv.update(t as int, team_view(new_team@)));
        t += 1;
    }
}

impl Game {
    /// One tick of a running Battle Ball game (see `player_tick` for each
    /// player's part): `None` unless the game is Battle Ball and started;
    /// else the tick packet (`tick_packet`), with the players, field and
    /// scores moved on, and the time left counted down every second tick.
    /// `moves[t][i]` is where player `i` of team `t` steps to and which way
    /// it then faces, as the path finder gives them; it is used only for a
    /// player that has a walking goal.
    pub fn tick(&mut self, moves: &Vec<Vec<(i32, i32, i32)>>) -> (r: Option<String>)
        requires
            old(self).is_battle_ball && old(self).state == GameState::Started ==> moves_fit(*old(self), moves_view(moves@))
                && tick_ok(*old(self), moves_view(moves@)),
        ensures
            !(old(self).is_battle_ball && old(self).state == GameState::Started) ==> r is None && *final(self) == *old(self),
            old(self).is_battle_ball && old(self).state == GameState::Started ==> ({
                let e = tick_end(*old(self), moves_view(moves@));
                &&& r matches Some(p) && p@ == tick_packet(*old(self), e)
                &&& teams_view(final(self).teams@) == e.teams
                &&& grid_view(final(self).battle_ball_tiles@) == e.tiles
                &&& grid_view(final(self).blocked_tiles@) == e.blocked
                &&& final(self).team_scores@ == e.scores
                &&& final(self).left_time == (if old(self).tick_phase { old(self).left_time - 1 } else { old(self).left_time as int })
                &&& final(self).tick_phase == !old(self).tick_phase
                &&& (final(self).tick_phase, final(self).left_time as int) == tick_clock(old(self).tick_phase, old(self).left_time as int)
                &&& final(self).heightmap@ == old(self).heightmap@
                &&& final(self).state == old(self).state
                &&& final(self).is_battle_ball == old(self).is_battle_ball
            }),
    {
        if !self.is_battle_ball || self.state != GameState::Started {
            return None;
        }
        let ghost g0 = *self;
        let ghost mv = moves_view(moves@);
        assert(moves_fit(g0, mv) && tick_ok(g0, mv));
        let rows = height_rows_exec(self.heightmap.as_str());
        let team_amount = self.teams.len();
        let active = count_active(&self.teams);
        let mut field = TickField { tiles: Vec::new(), blocked: Vec::new(), scores: Vec::new() };
        std::mem::swap(&mut field.tiles, &mut self.battle_ball_tiles);
        std::mem::swap(&mut field.blocked, &mut self.blocked_tiles);
        std::mem::swap(&mut field.scores, &mut self.team_scores);
        let mut text = TickText {
            players: String::new(),
            updated: String::new(),
            moved: String::new(),
            counts: (0, 0, 0),
        };
        assert(state_of(teams_view(self.teams@), field.tiles@, field.blocked@, field.scores@, text.players@, text.updated@, text.moved@, text.counts, true) == tick_start(g0));
        assert forall|j: int| 0 <= j < moves@.len() implies #[trigger] moves@[j]@.len() == self.teams@[j]@.len() by {
            assert(mv[j] == moves@[j]@);
        }
        tick_teams(&mut self.teams, moves, active, &rows, &mut field, &mut text);
        let ghost e = tick_end(g0, mv);
        assert(e == state_of(teams_view(self.teams@), field.tiles@, field.blocked@, field.scores@, text.players@, text.updated@, text.moved@, text.counts, true));
        proof {
            lemma_tick_counts_nonneg(tick_start(g0), team_amount as int, mv, active as int, height_rows(g0.heightmap@));
        }
        assert(e.scores == field.scores@);
        assert forall|j: int| 0 <= j < field.scores@.len() implies #[trigger] field.scores@[j] != i32::MIN by {
            assert(e.scores[j] != i32::MIN);
        }
        let score_line = scores_line_exec(&field.scores, team_amount as i32);
        if self.tick_phase {
            self.left_time = self.left_time - 1;
        }
        self.tick_phase = !self.tick_phase;
        std::mem::swap(&mut field.tiles, &mut self.battle_ball_tiles);
        std::mem::swap(&mut field.blocked, &mut self.blocked_tiles);
        std::mem::swap(&mut field.scores, &mut self.team_scores);
        let mut out = String::new();
        push_char(&mut out, 'C');
        push_char(&mut out, 't');
        push_vl64(&mut out, text.counts.0);
        push_str(&mut out, text.players.as_str());
        push_vl64(&mut out, text.counts.1);
        push_str(&mut out, text.updated.as_str());
        push_str(&mut out, score_line.as_str());
        push_char(&mut out, 'I');
        push_vl64(&mut out, text.counts.2);
        push_str(&mut out, text.moved.as_str());
        assert(out@ =~= tick_packet(g0, e));
        Some(out)
    }
}

} // verus!
