//! What a Battle Ball tick keeps of the scores: a team gains exactly what
//! its players gain.
use vstd::prelude::*;

use crate::arena::{
    lemma_team_tick_ok_mono, lemma_teams_tick_ok_mono, moves_fit, player_tick, team_tick, teams_tick, tick_end, tick_ok,
    tick_start, TickState,
};
use crate::games::{Game, GamePlayerView, nonempty_teams, teams_view};

verus! {

/// The scores of the first `n` players of a team, added up.
pub open spec fn score_sum(team: Seq<GamePlayerView>, n: int) -> int
    decreases n,
{
    if n <= 0 {
        0
    } else {
        score_sum(team, n - 1) + team[n - 1].score
    }
}

/// The scores of a team's players, added up.
pub open spec fn team_score_total(team: Seq<GamePlayerView>) -> int {
    score_sum(team, team.len() as int)
}

proof fn lemma_sum_one_changed(a: Seq<GamePlayerView>, b: Seq<GamePlayerView>, i: int, n: int)
    requires
        a.len() == b.len(),
        0 <= i < a.len(),
        0 <= n <= a.len(),
        forall|j: int| 0 <= j < a.len() && j != i ==> a[j] == b[j],
    ensures
        score_sum(b, n) - score_sum(a, n) == (if i < n { b[i].score - a[i].score } else { 0 }),
    decreases n,
{
    if n > 0 {
        lemma_sum_one_changed(a, b, i, n - 1);
    }
}

proof fn lemma_player_balance(
    s: TickState,
    t: int,
    i: int,
    mv: (i32, i32, i32),
    active: int,
    rows: Seq<Seq<char>>,
)
    requires
        0 <= t < s.teams.len(),
        0 <= i < s.teams[t].len(),
        t < s.scores.len(),
        active >= 0,
        player_tick(s, t, i, mv, active, rows).ok,
    ensures
        ({
            let r = player_tick(s, t, i, mv, active, rows);
            &&& r.teams.len() == s.teams.len()
            &&& r.scores.len() == s.scores.len()
            &&& r.teams[t].len() == s.teams[t].len()
            &&& forall|k: int| 0 <= k < s.teams.len() && k != t ==> #[trigger] r.teams[k] == s.teams[k]
            &&& forall|k: int| 0 <= k < s.scores.len() && k != t ==> #[trigger] r.scores[k] == s.scores[k]
            &&& forall|j: int| 0 <= j < s.teams[t].len() && j != i ==> #[trigger] r.teams[t][j] == s.teams[t][j]
            &&& r.scores[t] - s.scores[t] == r.teams[t][i].score - s.teams[t][i].score
            &&& r.teams[t][i].user_id == s.teams[t][i].user_id
            &&& r.teams[t][i].score >= s.teams[t][i].score
        }),
{
}

proof fn lemma_team_balance(
    s: TickState,
    t: int,
    n: int,
    moves: Seq<(i32, i32, i32)>,
    active: int,
    rows: Seq<Seq<char>>,
)
    requires
        0 <= t < s.teams.len(),
        0 <= n <= s.teams[t].len(),
        t < s.scores.len(),
        active >= 0,
        team_tick(s, t, n, moves, active, rows).ok,
    ensures
        ({
            let r = team_tick(s, t, n, moves, active, rows);
            &&& r.teams.len() == s.teams.len()
            &&& r.scores.len() == s.scores.len()
            &&& r.teams[t].len() == s.teams[t].len()
            &&& forall|k: int| 0 <= k < s.teams.len() && k != t ==> #[trigger] r.teams[k] == s.teams[k]
            &&& forall|k: int| 0 <= k < s.scores.len() && k != t ==> #[trigger] r.scores[k] == s.scores[k]
            &&& r.scores[t] - s.scores[t] == team_score_total(r.teams[t]) - team_score_total(s.teams[t])
            &&& forall|j: int| 0 <= j < s.teams[t].len() ==> #[trigger] r.teams[t][j].user_id == s.teams[t][j].user_id
                && r.teams[t][j].score >= s.teams[t][j].score
        }),
    decreases n,
{
    if n > 0 {
        lemma_team_tick_ok_mono(s, t, n, moves, active, rows, n - 1);
        lemma_team_balance(s, t, n - 1, moves, active, rows);
        let prev = team_tick(s, t, n - 1, moves, active, rows);
        lemma_player_balance(prev, t, n - 1, moves[n - 1], active, rows);
        let r = team_tick(s, t, n, moves, active, rows);
        assert(r == player_tick(prev, t, n - 1, moves[n - 1], active, rows));
        lemma_sum_one_changed(prev.teams[t], r.teams[t], n - 1, prev.teams[t].len() as int);
    }
}

proof fn lemma_teams_balance(
    s: TickState,
    n: int,
    moves: Seq<Seq<(i32, i32, i32)>>,
    active: int,
    rows: Seq<Seq<char>>,
)
    requires
        0 <= n <= s.teams.len(),
        s.teams.len() <= s.scores.len(),
        active >= 0,
        moves.len() == s.teams.len(),
        forall|j: int| 0 <= j < moves.len() ==> #[trigger] moves[j].len() == s.teams[j].len(),
        teams_tick(s, n, moves, active, rows).ok,
    ensures
        ({
            let r = teams_tick(s, n, moves, active, rows);
            &&& r.teams.len() == s.teams.len()
            &&& r.scores.len() == s.scores.len()
            &&& forall|k: int| 0 <= k < s.teams.len() ==> #[trigger] r.teams[k].len() == s.teams[k].len()
            &&& forall|k: int| n <= k < s.teams.len() ==> #[trigger] r.teams[k] == s.teams[k] && r.scores[k] == s.scores[k]
            &&& forall|k: int| 0 <= k < n ==> #[trigger] r.scores[k] - s.scores[k] == team_score_total(r.teams[k])
                - team_score_total(s.teams[k])
            &&& forall|k: int, j: int| 0 <= k < s.teams.len() && 0 <= j < s.teams[k].len() ==> #[trigger] r.teams[k][j].user_id
                == s.teams[k][j].user_id && r.teams[k][j].score >= s.teams[k][j].score
        }),
    decreases n,
{
    if n > 0 {
        assert forall|j: int| 0 <= j < moves.len() implies #[trigger] moves[j].len() >= 0 by {}
        lemma_teams_tick_ok_mono(s, n, moves, active, rows, n - 1);
        lemma_teams_balance(s, n - 1, moves, active, rows);
        let before = teams_tick(s, n - 1, moves, active, rows);
        let t = n - 1;
        assert(before.teams[t] == s.teams[t]);
        let r = teams_tick(s, n, moves, active, rows);
        assert(r == team_tick(before, t, moves[t].len() as int, moves[t], active, rows));
        lemma_team_balance(before, t, moves[t].len() as int, moves[t], active, rows);
    }
}

/// A tick of a Battle Ball game keeps the scores balanced: each team's
/// score grows by exactly what its players' scores grow by together.
pub proof fn law_tick_scores_balance(g: Game, moves: Seq<Seq<(i32, i32, i32)>>)
    requires
        moves_fit(g, moves),
        tick_ok(g, moves),
        g.team_scores@.len() >= g.teams@.len(),
    ensures
        ({
            let e = tick_end(g, moves);
            let ts = teams_view(g.teams@);
            &&& e.teams.len() == ts.len()
            &&& forall|k: int| 0 <= k < ts.len() ==> #[trigger] e.scores[k] - g.team_scores@[k] == team_score_total(e.teams[k])
                - team_score_total(ts[k])
            &&& forall|k: int| 0 <= k < ts.len() ==> #[trigger] e.teams[k].len() == ts[k].len() && e.scores[k] >= g.team_scores@[k]
            &&& forall|k: int, j: int| 0 <= k < ts.len() && 0 <= j < ts[k].len() ==> #[trigger] e.teams[k][j].user_id
                == ts[k][j].user_id && e.teams[k][j].score >= ts[k][j].score
        }),
{
    let ts = teams_view(g.teams@);
    let s = tick_start(g);
    assert(s.teams.len() == g.teams@.len());
    assert forall|j: int| 0 <= j < moves.len() implies #[trigger] moves[j].len() == s.teams[j].len() by {
        assert(moves[j].len() == g.teams@[j]@.len());
    }
    lemma_nonempty_nonneg(ts);
    lemma_teams_balance(s, ts.len() as int, moves, nonempty_teams(ts), crate::arena::height_rows(g.heightmap@));
    assert forall|k: int| 0 <= k < ts.len() implies #[trigger] tick_end(g, moves).scores[k] >= g.team_scores@[k] by {
        let e = tick_end(g, moves);
        assert forall|j: int| 0 <= j < ts[k].len() implies #[trigger] e.teams[k][j].score >= ts[k][j].score by {
            assert(e.teams[k][j].user_id == ts[k][j].user_id);
        }
        lemma_sum_nondecreasing(ts[k], e.teams[k], ts[k].len() as int);
    }
}

proof fn lemma_nonempty_nonneg(ts: Seq<Seq<GamePlayerView>>)
    ensures
        nonempty_teams(ts) >= 0,
    decreases ts.len(),
{
    if ts.len() > 0 {
        lemma_nonempty_nonneg(ts.drop_last());
    }
}

proof fn lemma_sum_nondecreasing(a: Seq<GamePlayerView>, b: Seq<GamePlayerView>, n: int)
    requires
        0 <= n <= a.len(),
        a.len() == b.len(),
        forall|j: int| 0 <= j < a.len() ==> #[trigger] b[j].score >= a[j].score,
    ensures
        score_sum(b, n) >= score_sum(a, n),
    decreases n,
{
    if n > 0 {
        lemma_sum_nondecreasing(a, b, n - 1);
    }
}

} // verus!
