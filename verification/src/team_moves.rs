//! What moving players between a game's teams keeps: every user in one
//! team at most.
use vstd::prelude::*;

use crate::games::{
    drop_user, first_team_with, has_user, lemma_first_team_with, lemma_has_user_position, move_spec,
    new_player_spec, remove_player_spec, GamePlayerView,
};

verus! {

/// How many of the first `n` teams hold user `uid`.
pub open spec fn teams_with(ts: Seq<Seq<GamePlayerView>>, uid: i64, n: int) -> int
    decreases n,
{
    if n <= 0 {
        0
    } else {
        teams_with(ts, uid, n - 1) + (if has_user(ts[n - 1], uid) { 1int } else { 0int })
    }
}

/// Every user is in one team at most.
pub open spec fn one_team_each(ts: Seq<Seq<GamePlayerView>>) -> bool {
    forall|x: i64| #[trigger] teams_with(ts, x, ts.len() as int) <= 1
}

proof fn lemma_drop_user_has(t: Seq<GamePlayerView>, uid: i64, x: i64)
    ensures
        has_user(drop_user(t, uid), x) == (x != uid && has_user(t, x)),
    decreases t.len(),
{
    if t.len() > 0 {
        lemma_drop_user_has(t.drop_last(), uid, x);
        let r = drop_user(t.drop_last(), uid);
        let l = t.last();
        assert(t.drop_last().push(l) =~= t);
        lemma_push_has(t.drop_last(), l, x);
        if l.user_id != uid {
            lemma_push_has(r, l, x);
        }
    } else {
        assert(!has_user(t, x));
    }
}

proof fn lemma_push_has(t: Seq<GamePlayerView>, p: GamePlayerView, x: i64)
    ensures
        has_user(t.push(p), x) == (has_user(t, x) || p.user_id == x),
{
    let u = t.push(p);
    if has_user(t, x) {
        let i = choose|i: int| 0 <= i < t.len() && t[i].user_id == x;
        assert(u[i] == t[i]);
    }
    if p.user_id == x {
        assert(u[t.len() as int] == p);
    }
    if has_user(u, x) {
        let i = choose|i: int| 0 <= i < u.len() && u[i].user_id == x;
        if i < t.len() {
            assert(u[i] == t[i]);
        }
    }
}

proof fn lemma_teams_with_update(ts: Seq<Seq<GamePlayerView>>, i: int, t: Seq<GamePlayerView>, x: i64, n: int)
    requires
        0 <= i < ts.len(),
        0 <= n <= ts.len(),
    ensures
        teams_with(ts.update(i, t), x, n) == teams_with(ts, x, n) + (if i < n {
            (if has_user(t, x) { 1int } else { 0int }) - (if has_user(ts[i], x) { 1int } else { 0int })
        } else {
            0int
        }),
    decreases n,
{
    if n > 0 {
        lemma_teams_with_update(ts, i, t, x, n - 1);
    }
}

proof fn lemma_drop_absent(t: Seq<GamePlayerView>, uid: i64)
    requires
        !has_user(t, uid),
    ensures
        drop_user(t, uid) == t,
    decreases t.len(),
{
    if t.len() > 0 {
        assert(!has_user(t.drop_last(), uid)) by {
            if has_user(t.drop_last(), uid) {
                let i = choose|i: int| 0 <= i < t.drop_last().len() && t.drop_last()[i].user_id == uid;
                assert(t[i].user_id == uid);
            }
        }
        lemma_drop_absent(t.drop_last(), uid);
        assert(t.last().user_id != uid) by {
            if t.last().user_id == uid {
                assert(t[t.len() - 1].user_id == uid);
            }
        }
        assert(t.drop_last().push(t.last()) =~= t);
    }
}

/// Moving a user into team `k` keeps every user in one team at most, when
/// the move names the team the user is in (if any): afterwards the user is
/// in team `k`, once, last and with `k` as its team, and in no other team;
/// every other user stays in its team, in the same order; no team is added
/// or lost; an owner that moves takes `k` as its team.
pub proof fn law_move_keeps_one_team_each(
    ts: Seq<Seq<GamePlayerView>>,
    owner: GamePlayerView,
    uid: i64,
    from: Option<usize>,
    k: usize,
)
    requires
        one_team_each(ts),
        ts.len() <= usize::MAX,
        k < ts.len(),
        forall|j: int| 0 <= j < ts.len() && #[trigger] has_user(ts[j], uid) ==> from == Some(j as usize),
    ensures
        ({
            let r = move_spec(ts, owner, uid, from, Some(k));
            &&& r.0.len() == ts.len()
            &&& one_team_each(r.0)
            &&& r.0[k as int].len() > 0 && r.0[k as int].last().user_id == uid
            &&& !has_user(r.0[k as int].drop_last(), uid)
            &&& forall|j: int| 0 <= j < ts.len() && j != k ==> !has_user(#[trigger] r.0[j], uid)
            &&& owner.user_id == uid ==> r.1.team_id == k as i32
            &&& r.0[k as int].last().team_id == k as i32
            &&& r.0[k as int].drop_last() == drop_user(ts[k as int], uid)
            &&& forall|j: int| 0 <= j < ts.len() && j != k ==> #[trigger] r.0[j] == drop_user(ts[j], uid)
        }),
{
    let n = ts.len() as int;
    let ts1 = if from is Some && (from->0 as int) < n {
        ts.update(from->0 as int, drop_user(ts[from->0 as int], uid))
    } else {
        ts
    };
    // The user is in no team of ts1.
    assert forall|j: int| 0 <= j < n implies !has_user(#[trigger] ts1[j], uid) by {
        if from is Some && (from->0 as int) < n && j == from->0 as int {
            lemma_drop_user_has(ts[j], uid, uid);
        } else {
            assert(ts1[j] == ts[j]);
            if has_user(ts[j], uid) {
                assert(from == Some(j as usize));
            }
        }
    }
    // Every other user is where it was or gone.
    assert forall|x: i64| #[trigger] teams_with(ts1, x, n) <= teams_with(ts, x, n) by {
        if from is Some && (from->0 as int) < n {
            let f = from->0 as int;
            lemma_teams_with_update(ts, f, drop_user(ts[f], uid), x, n);
            lemma_drop_user_has(ts[f], uid, x);
        }
    }
    let removed = remove_player_spec(ts1, uid, from);
    lemma_first_team_with(ts1, uid, 0);
    if let Some(j) = first_team_with(ts1, uid, 0) {
        lemma_has_user_position(ts1[j], uid);
        assert(false);
    }
    if from is Some && (from->0 as int) < n {
        lemma_has_user_position(ts1[from->0 as int], uid);
    }
    assert(removed.1 == ts1);
    let is_owner = owner.user_id == uid;
    let ts2 = ts1;
    let p0 = if is_owner {
        owner
    } else if removed.0 is Some {
        removed.0->0
    } else {
        new_player_spec(uid, Seq::empty())
    };
    assert(removed.0 is None);
    assert(p0.user_id == uid);
    let p = GamePlayerView { team_id: k as i32, ..p0 };
    let ts3 = ts2.update(k as int, ts2[k as int].push(p));
    assert(!has_user(ts2[k as int], p.user_id));
    let r = move_spec(ts, owner, uid, from, Some(k));
    assert(r.0 == ts3);
    assert(ts3[k as int].drop_last() =~= ts2[k as int]);
    assert forall|x: i64| #[trigger] teams_with(ts3, x, n) <= 1 by {
        lemma_teams_with_update(ts2, k as int, ts2[k as int].push(p), x, n);
        lemma_push_has(ts2[k as int], p, x);
        assert(teams_with(ts, x, n) <= 1);
        assert(teams_with(ts1, x, n) <= teams_with(ts, x, n));
        if x == uid {
            lemma_teams_with_zero(ts1, uid, n);
        }
    }
    assert forall|j: int| 0 <= j < n implies #[trigger] ts1[j] == drop_user(ts[j], uid) by {
        if !(from is Some && (from->0 as int) < n && j == from->0 as int) {
            assert(ts1[j] == ts[j]);
            if has_user(ts[j], uid) {
                assert(from == Some(j as usize));
            }
            lemma_drop_absent(ts[j], uid);
        }
    }
    assert(r.0[k as int].drop_last() == ts1[k as int]);
    assert forall|j: int| 0 <= j < n && j != k implies #[trigger] r.0[j] == drop_user(ts[j], uid) by {
        assert(r.0[j] == ts1[j]);
    }
    assert forall|j: int| 0 <= j < n && j != k implies !has_user(#[trigger] r.0[j], uid) by {
        assert(r.0[j] == ts1[j]);
    }
}

proof fn lemma_teams_with_zero(ts: Seq<Seq<GamePlayerView>>, uid: i64, n: int)
    requires
        0 <= n <= ts.len(),
        forall|j: int| 0 <= j < ts.len() ==> !has_user(#[trigger] ts[j], uid),
    ensures
        teams_with(ts, uid, n) == 0,
    decreases n,
{
    if n > 0 {
        lemma_teams_with_zero(ts, uid, n - 1);
    }
}

} // verus!
