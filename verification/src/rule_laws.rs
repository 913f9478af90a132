//! Game, catalogue, sound and room rules stated by what they give: what a
//! step on a tile pays, how many players a team takes, which purchases are
//! decorations, how long a song is, and who rings a doorbell.
use vstd::prelude::*;

use crate::arena::{can_step, in_grid, take_step, take_step_ok, TickState};
use crate::catalogue::{contains_text, purchase_kind_spec, PurchaseKind};
use crate::games::{team_capacity, GamePlayerView};
use crate::rooms::{room_access_spec, RoomAccess, RoomAccessFacts};
use crate::sound::{song_length_spec, track_total};
use crate::strings::string_part_spec;

verus! {

/// A step onto a free tile of the field claims it for the stepping team:
/// a tile the team held goes up one level, any other tile becomes the
/// team's at level 1. Reaching level 1, 2, 3 or 4 pays 1, 3, 5 or 7 times
/// the number of teams with players, to the team's score and to the
/// player's score alike.
pub proof fn law_step_pays_by_level(
    s: TickState,
    t: int,
    p: GamePlayerView,
    mv: (i32, i32, i32),
    active: int,
    rows: Seq<Seq<char>>,
)
    requires
        0 <= t <= i32::MAX,
        active >= 0,
        can_step(s.blocked, mv.0, mv.1),
        in_grid(s.tiles, mv.1 as int, mv.0 as int),
        s.tiles[mv.1 as int][mv.0 as int].1 != 4,
        take_step_ok(s, t, p, mv, active),
    ensures
        ({
            let (s2, q) = take_step(s, t, p, mv, active, rows);
            let old_tile = s.tiles[mv.1 as int][mv.0 as int];
            let new_tile = s2.tiles[mv.1 as int][mv.0 as int];
            let level = new_tile.1 as int;
            &&& new_tile.0 as int == t
            &&& level == (if old_tile.0 as int == t { old_tile.1 + 1 } else { 1 })
            &&& (1 <= level <= 4 ==> s2.scores[t] == s.scores[t] + (2 * level - 1) * active
                && q.score == p.score + (2 * level - 1) * active)
            &&& (level == 2 ==> s2.scores[t] == s.scores[t] + 3 * active && q.score == p.score + 3 * active)
        }),
{
    let (nx, ny, rot) = mv;
    let old_tile = s.tiles[ny as int][nx as int];
    let tile = crate::arena::claimed_tile(old_tile, t);
    let extra = crate::arena::level_points(tile.1 as int, active);
    if old_tile.0 as int == t {
        assert(old_tile.1 < i32::MAX);
        assert(tile.1 as int == old_tile.1 + 1);
    } else {
        assert(tile.1 == 1);
    }
    assert(tile.0 as int == t);
    let (s2, q) = take_step(s, t, p, mv, active, rows);
    assert(s2.tiles[ny as int][nx as int] == tile);
    assert(s2.scores[t] == (s.scores[t] + extra) as i32);
    assert(s2.scores[t] == s.scores[t] + extra);
    assert(q.score == p.score + extra);
    let level = tile.1 as int;
    if 1 <= level <= 4 {
        assert(extra == (2 * level - 1) * active) by (nonlinear_arith)
            requires
                1 <= level <= 4,
                extra == crate::arena::level_points(level, active),
        {
        }
    }
}

/// A team of a game with two teams takes 6 players, with three teams 4 and
/// with four teams 3: a team below that has room, a team at it has none.
pub proof fn law_team_space_by_team_count(n: int, members: int)
    requires
        2 <= n <= 4,
        0 <= members,
    ensures
        n == 2 ==> (members < team_capacity(n) <==> members < 6),
        n == 3 ==> (members < team_capacity(n) <==> members < 4),
        n == 4 ==> (members < team_capacity(n) <==> members < 3),
        members == 0 ==> members < team_capacity(n),
{
}

/// An item that is not a deal is a decoration when its sprite is
/// `wallpaper` or `floor` or holds `landscape`; a deal is a deal whatever
/// its sprite; a trophy is a trophy unless it is a decoration.
pub proof fn law_decorations_by_sprite(item: Seq<char>, sprite: Seq<char>)
    ensures
        string_part_spec(item, 0, 4) != "deal"@ && (sprite == "floor"@ || sprite == "wallpaper"@ || contains_text(
            sprite,
            "landscape"@,
        )) ==> purchase_kind_spec(item, sprite) == PurchaseKind::Decoration,
        string_part_spec(item, 0, 4) == "deal"@ ==> purchase_kind_spec(item, sprite) is Deal,
        string_part_spec(item, 0, 4) != "deal"@ && purchase_kind_spec(item, sprite) == PurchaseKind::Decoration
            ==> (sprite == "floor"@ || sprite == "wallpaper"@ || contains_text(sprite, "landscape"@)),
        string_part_spec(item, 0, 4) != "deal"@ && !(sprite == "floor"@ || sprite == "wallpaper"@ || contains_text(
            sprite,
            "landscape"@,
        )) && (string_part_spec(item, 0, 11) == "prizetrophy"@ || string_part_spec(item, 0, 11) == "greektrophy"@)
            ==> purchase_kind_spec(item, sprite) == PurchaseKind::Trophy,
{
}

/// A song whose three tracks read is as long as its longest track: at
/// least each track's total and never below 0, and equal to one of them or
/// to 0.
pub proof fn law_song_length_is_longest_track(data: Seq<char>)
    requires
        track_total(data, 1) is Some,
        track_total(data, 4) is Some,
        track_total(data, 7) is Some,
    ensures
        ({
            let a = track_total(data, 1)->0;
            let b = track_total(data, 4)->0;
            let c = track_total(data, 7)->0;
            let r = song_length_spec(data);
            &&& r >= a && r >= b && r >= c && r >= 0
            &&& (r == a || r == b || r == c || r == 0)
        }),
{
}

/// A song with a track missing or malformed has length -1.
pub proof fn law_song_length_malformed(data: Seq<char>)
    requires
        track_total(data, 1) is None || track_total(data, 4) is None || track_total(data, 7) is None,
    ensures
        song_length_spec(data) == -1,
{
}

/// At a doorbell door, a visitor who is not the owner, came neither by
/// teleporter nor by an answered ring, passed the first step and is not
/// banned rings the doorbell when the room is loaded, and is told the room
/// is gone only when it is not; the owner and anyone at an open door go
/// in.
pub proof fn law_doorbell_rings_in_loaded_rooms(f: RoomAccessFacts, given: Seq<char>, password: Seq<char>)
    ensures
        f.access_flag == 1 && !f.teleporter_arrival && !f.doorbell_answered && !f.is_owner && f.primary_ok && f.ban
            != Some(true) ==> room_access_spec(f, given, password).0 == (if f.room_loaded {
            RoomAccess::Doorbell
        } else {
            RoomAccess::RoomGone
        }),
        room_access_spec(f, given, password).0 == RoomAccess::RoomGone ==> !f.room_loaded && f.access_flag == 1,
        room_access_spec(f, given, password).0 == RoomAccess::Doorbell ==> f.room_loaded && f.access_flag == 1,
        f.is_owner || f.access_flag == 0 ==> room_access_spec(f, given, password).0 == RoomAccess::Granted,
{
}

} // verus!
