//! Room rules that do not need a loaded room: door states, wall-item
//! refresh packets, swim tickets, and who may enter a guest room.
use vstd::prelude::*;
use vstd::string::StringSliceAdditionalSpecFns;
use crate::text::{str_eq, push_i64, int_text, push_str, push_char, owned, trim_str, trim_spec};
use crate::session::{text_after, text_after_spec, words_spec, speech_words, after_header, packet_body};
use crate::catalogue::{wall_position_spec, wall_position_ok};
use crate::navigator::{vl, vl_ok, push_vl};
use crate::text::{parse_int_spec, parse_i64, parse_i32, i64_text, to_chars, split_spec, split_chars};

verus! {

broadcast use vstd::utf8::encode_utf8_valid_utf8;

/// The number of a door state: 1 closed, 2 password, 0 anything else.
pub open spec fn room_state_id_spec(state: Seq<char>) -> int {
    if state == "closed"@ {
        1
    } else if state == "password"@ {
        2
    } else {
        0
    }
}

/// The number of a door state (see `room_state_id_spec`).
pub fn room_state_id(state: &str) -> (r: i32)
    ensures
        r == room_state_id_spec(state@),
{
    if str_eq(state, "closed") {
        1
    } else if str_eq(state, "password") {
        2
    } else {
        0
    }
}

/// The name of a door state number: `closed`, `password`, else `open`.
pub fn room_state_name(state: i32) -> (r: &'static str)
    ensures
        r@ == (if state == 1 {
            "closed"@
        } else if state == 2 {
            "password"@
        } else {
            "open"@
        }),
{
    if state == 1 {
        "closed"
    } else if state == 2 {
        "password"
    } else {
        "open"
    }
}

/// A door state's name read back from its number is the name again, for
/// each of the three door states.
pub proof fn law_room_state_reads_back(state: Seq<char>)
    requires
        state == "open"@ || state == "closed"@ || state == "password"@,
    ensures
        crate::navigator::door_state_name(room_state_id_spec(state)) == state,
{
    reveal_strlit("open");
    reveal_strlit("closed");
    reveal_strlit("password");
    assert("open"@ != "closed"@ && "open"@ != "password"@ && "closed"@ != "password"@) by {
        assert("open"@[0] != "closed"@[0]);
        assert("open"@[0] != "password"@[0]);
        assert("closed"@[0] != "password"@[0]);
    }
}

/// The packet that refreshes a wall item.
pub open spec fn wallitem_packet_spec(item_id: i64, cct_name: Seq<char>, wall_position: Seq<char>, item_variable: Seq<char>) -> Seq<char> {
    "AU"@ + int_text(item_id as int) + seq!['\t'] + cct_name + seq!['\t', ' '] + wall_position + seq!['\t']
        + item_variable
}

/// The packet that refreshes a wall item: id, class, position and state,
/// tab-separated.
pub fn refresh_wallitem_packet(item_id: i64, cct_name: &str, wall_position: &str, item_variable: &str) -> (r: String)
    ensures
        r@ == wallitem_packet_spec(item_id, cct_name@, wall_position@, item_variable@),
{
    let mut s = owned("AU");
    push_i64(&mut s, item_id);
    push_char(&mut s, '\t');
    push_str(&mut s, cct_name);
    push_char(&mut s, '\t');
    push_char(&mut s, ' ');
    push_str(&mut s, wall_position);
    push_char(&mut s, '\t');
    push_str(&mut s, item_variable);
    assert(s@ =~= wallitem_packet_spec(item_id, cct_name@, wall_position@, item_variable@));
    s
}

/// The ticket count that stands for unlimited swimming.
pub open spec fn unlimited_tickets() -> int {
    33333
}

/// Whether a swim costs a ticket: always, except for the unlimited count.
pub fn should_decrement_swim_ticket(tickets: i64) -> (r: bool)
    ensures
        r == (tickets != unlimited_tickets()),
{
    tickets != 33_333
}

// ---------------------------------------------------------------- room access

/// What is known when a user asks to enter a guest room.
#[derive(Debug, Clone)]
pub struct RoomAccessFacts {
    /// The user arrives through a teleporter linked to this room.
    pub teleporter_arrival: bool,
    /// Someone with rights answered the user's ring (read only when the
    /// user does not arrive by teleporter, since reading it uses it up).
    pub doorbell_answered: bool,
    /// The user owns the room.
    pub is_owner: bool,
    /// The door: 0 open, 1 doorbell, 2 password.
    pub access_flag: i32,
    /// The user is in a game.
    pub in_game: bool,
    /// The user's rank may enter locked rooms.
    pub may_enter_locked: bool,
    /// The first step of entering went through.
    pub primary_ok: bool,
    /// A ban of the user from the room, if there is one: whether it still
    /// holds.
    pub ban: Option<bool>,
    /// The room is loaded.
    pub room_loaded: bool,
}

/// The answer to a request to enter a guest room.
#[derive(Debug, Clone, Copy, PartialEq, Eq, Structural)]
pub enum RoomAccess {
    /// The user may come in.
    Granted,
    /// Nothing happens yet.
    Waiting,
    /// The user is banned from the room.
    Banned,
    /// The password was wrong.
    WrongPassword,
    /// The user rings the doorbell.
    Doorbell,
    /// The room is not loaded any more.
    RoomGone,
}

/// Who may enter: by teleporter, by an answered ring, as owner or through
/// an open door at once; otherwise, outside games and without the right to
/// enter locked rooms, a user waits until the first step went through
/// (unless the door has a password), and a ban that still holds turns
/// them away (one that ran out is lifted); then the password must match,
/// or the doorbell is rung where the room is loaded. The second value says
/// whether a ban that ran out is lifted.
pub open spec fn room_access_spec(f: RoomAccessFacts, given: Seq<char>, password: Seq<char>) -> (RoomAccess, bool) {
    if f.teleporter_arrival || f.doorbell_answered || f.is_owner || f.access_flag == 0 {
        (RoomAccess::Granted, false)
    } else {
        let checked = !f.in_game && !f.is_owner && !f.may_enter_locked;
        if checked && !f.primary_ok && f.access_flag != 2 {
            (RoomAccess::Waiting, false)
        } else if checked && f.ban == Some(true) {
            (RoomAccess::Banned, false)
        } else {
            let lifted = checked && f.ban == Some(false);
            if f.access_flag == 2 {
                (if trim_spec(given) == password { RoomAccess::Granted } else { RoomAccess::WrongPassword }, lifted)
            } else if f.access_flag == 1 {
                (if f.room_loaded { RoomAccess::Doorbell } else { RoomAccess::RoomGone }, lifted)
            } else {
                (RoomAccess::Granted, lifted)
            }
        }
    }
}

/// Decides a request to enter a guest room (see `room_access_spec`); the
/// password is what the access packet holds after its header, trimmed.
pub fn room_access(f: &RoomAccessFacts, packet: &str, room_password: &str) -> (r: (RoomAccess, bool))
    ensures
        r == room_access_spec(*f, text_after_spec(packet@, 2), room_password@),
{
    if f.teleporter_arrival || f.doorbell_answered || f.is_owner || f.access_flag == 0 {
        return (RoomAccess::Granted, false);
    }
    let checked = !f.in_game && !f.is_owner && !f.may_enter_locked;
    if checked && !f.primary_ok && f.access_flag != 2 {
        return (RoomAccess::Waiting, false);
    }
    let still_banned = match f.ban {
        Some(b) => b,
        None => false,
    };
    if checked && still_banned {
        return (RoomAccess::Banned, false);
    }
    let lifted = checked && match f.ban {
        Some(b) => !b,
        None => false,
    };
    if f.access_flag == 2 {
        let given = trim_str(text_after(packet, 2));
        if str_eq(given.as_str(), room_password) {
            (RoomAccess::Granted, lifted)
        } else {
            (RoomAccess::WrongPassword, lifted)
        }
    } else if f.access_flag == 1 {
        if f.room_loaded {
            (RoomAccess::Doorbell, lifted)
        } else {
            (RoomAccess::RoomGone, lifted)
        }
    } else {
        (RoomAccess::Granted, lifted)
    }
}

// ---------------------------------------------------------------- placing items

/// The item that a placement request names: the first word after the
/// header, read as an `i64`; nothing when the user is not in a guest room
/// of their own rights.
pub open spec fn placement_item_spec(packet: Seq<char>, room_id: i64, room_is_public: bool, has_rights: bool) -> Option<int> {
    let w = words_spec(after_header(packet));
    if room_id <= 0 || room_is_public || !has_rights || w.len() == 0 {
        None
    } else {
        parse_int_spec(w[0], true, i64::MIN as int, i64::MAX as int)
    }
}

/// The item that a placement request names (see `placement_item_spec`).
pub fn placement_item(packet: &str, room_id: i64, room_is_public: bool, has_rights: bool) -> (r: Option<i64>)
    ensures
        r == (match placement_item_spec(packet@, room_id, room_is_public, has_rights) {
            Some(v) => Some(v as i64),
            None => None::<i64>,
        }),
{
    if room_id <= 0 || room_is_public || !has_rights {
        return None;
    }
    let words = speech_words(packet_body(packet));
    if words.len() == 0 {
        return None;
    }
    parse_i64(words[0].as_str())
}

/// Where a wall item is to hang: what follows the item's number and one
/// more byte, trimmed, when it is a wall position already in normal form.
pub open spec fn wall_placement_spec(packet: Seq<char>, item_id: i64) -> Option<Seq<char>> {
    let input = trim_spec(text_after_spec(packet, 3 + int_text(item_id as int).len() as int));
    let checked = wall_position_spec(input);
    if checked.len() == 0 || checked != input {
        None
    } else {
        Some(checked)
    }
}

/// Where a wall item is to hang (see `wall_placement_spec`).
pub fn wall_placement(packet: &str, item_id: i64) -> (r: Option<String>)
    ensures
        r is None <==> wall_placement_spec(packet@, item_id) is None,
        r matches Some(p) ==> wall_placement_spec(packet@, item_id) == Some(p@),
{
    let digits = to_chars(i64_text(item_id).as_str());
    proof {
        crate::text::lemma_i64_text_len(item_id);
    }
    let input = trim_str(text_after(packet, 3 + digits.len()));
    let checked = wall_position_ok(input.as_str());
    if checked.as_str().is_empty() || !str_eq(checked.as_str(), input.as_str()) {
        None
    } else {
        Some(checked)
    }
}

/// Where a floor item is to stand: the second, third and fourth words after
/// the header as `i32`s, when there are at least four words.
pub open spec fn floor_placement_spec(packet: Seq<char>) -> Option<(int, int, int)> {
    let w = words_spec(after_header(packet));
    if w.len() < 4 {
        None
    } else {
        match (
            parse_int_spec(w[1], true, i32::MIN as int, i32::MAX as int),
            parse_int_spec(w[2], true, i32::MIN as int, i32::MAX as int),
            parse_int_spec(w[3], true, i32::MIN as int, i32::MAX as int),
        ) {
            (Some(x), Some(y), Some(z)) => Some((x, y, z)),
            _ => None,
        }
    }
}

/// Where a floor item is to stand (see `floor_placement_spec`).
pub fn floor_placement(packet: &str) -> (r: Option<(i32, i32, i32)>)
    ensures
        r == (match floor_placement_spec(packet@) {
            Some((x, y, z)) => Some((x as i32, y as i32, z as i32)),
            None => None::<(i32, i32, i32)>,
        }),
{
    let words = speech_words(packet_body(packet));
    if words.len() < 4 {
        return None;
    }
    let x = match parse_i32(words[1].as_str()) {
        Some(v) => v,
        None => {
            return None;
        },
    };
    let y = match parse_i32(words[2].as_str()) {
        Some(v) => v,
        None => {
            return None;
        },
    };
    let z = match parse_i32(words[3].as_str()) {
        Some(v) => v,
        None => {
            return None;
        },
    };
    Some((x, y, z))
}

/// A pad of sticky notes keeps its other notes when one is hung: its
/// count, read as an `i32` (0 when it is none), is above 1. Otherwise the
/// pad is used up.
pub open spec fn sticky_pad_stays_spec(var: Seq<char>) -> bool {
    match parse_int_spec(var, true, i32::MIN as int, i32::MAX as int) {
        Some(v) => v > 1,
        None => false,
    }
}

/// Whether a pad of sticky notes stays after one is hung (see
/// `sticky_pad_stays_spec`).
pub fn sticky_pad_stays(var: &str) -> (r: bool)
    ensures
        r == sticky_pad_stays_spec(var@),
{
    match parse_i32(var) {
        Some(v) => v > 1,
        None => false,
    }
}

// ---------------------------------------------------------------- entering a room

/// A user who asks to be added to a room is added when they are in a room
/// whose door let them through, and either its first check passed or they
/// arrive by teleporter.
pub open spec fn room_entry_admitted_spec(room_id: i64, door_ok: bool, access_ok: bool, pending_teleporter_id: i64) -> bool {
    room_id > 0 && door_ok && (pending_teleporter_id > 0 || access_ok)
}

/// Whether a user who asks to be added to a room is added (see
/// `room_entry_admitted_spec`).
pub fn room_entry_admitted(room_id: i64, door_ok: bool, access_ok: bool, pending_teleporter_id: i64) -> (r: bool)
    ensures
        r == room_entry_admitted_spec(room_id, door_ok, access_ok, pending_teleporter_id),
{
    if room_id <= 0 || !door_ok {
        return false;
    }
    if pending_teleporter_id <= 0 && !access_ok {
        return false;
    }
    true
}

/// The control a user has over a guest room, shown as their `flatctrl`
/// status: `useradmin` for its owner, `onlyfurniture` for others with
/// rights, none in public rooms or without rights.
pub fn flat_control_status(room_is_public: bool, has_rights: bool, is_owner: bool) -> (r: Option<&'static str>)
    ensures
        room_is_public || (!is_owner && !has_rights) ==> r is None,
        !room_is_public && is_owner ==> (r matches Some(v) && v@ == "useradmin"@),
        !room_is_public && !is_owner && has_rights ==> (r matches Some(v) && v@ == "onlyfurniture"@),
{
    if room_is_public {
        None
    } else if is_owner {
        Some("useradmin")
    } else if has_rights {
        Some("onlyfurniture")
    } else {
        None
    }
}

/// A user arriving by teleporter steps out of it when the teleporter they
/// took leads into the room they enter.
pub fn teleporter_arrival_due(pending_teleporter_id: i64, pending_teleporter_room_id: i64, room_id: i64) -> (r: bool)
    ensures
        r == (pending_teleporter_id > 0 && pending_teleporter_room_id == room_id),
{
    pending_teleporter_id > 0 && pending_teleporter_room_id == room_id
}

/// The packet that shows a group's badge once the group is active in a
/// room: `DuI`, the group, the badge; none when the group has no badge.
pub fn group_badge_packet(group_id: i64, badge: &str) -> (r: Option<String>)
    requires
        vl_ok(group_id as int),
    ensures
        badge@.len() == 0 ==> r is None,
        badge@.len() > 0 ==> (r matches Some(p) && p@ == "DuI"@ + vl(group_id as int) + badge@ + seq!['\u{2}']),
{
    if badge.is_empty() {
        return None;
    }
    let mut s = owned("DuI");
    push_vl(&mut s, group_id);
    push_str(&mut s, badge);
    push_char(&mut s, '\u{2}');
    Some(s)
}

/// The packet that shows a player's game points in a game lobby: `CzI`,
/// the player's room number, the points in decimal and the rank title.
pub fn game_points_packet(room_uid: i64, points: i64, title: &str) -> (r: String)
    requires
        vl_ok(room_uid as int),
    ensures
        r@ == "CzI"@ + vl(room_uid as int) + int_text(points as int) + title@ + seq!['\u{2}'],
{
    let mut s = owned("CzI");
    push_vl(&mut s, room_uid);
    push_i64(&mut s, points);
    push_str(&mut s, title);
    push_char(&mut s, '\u{2}');
    s
}

// ---------------------------------------------------------------- asking to enter a room

/// What a request to enter a room asks for: whether the room is public (the
/// text after the header starts with `A`) and the room, the VL64 number
/// after that first character, when it is positive.
pub open spec fn room_entry_request_spec(packet: Seq<char>) -> Option<(bool, int)> {
    let args = after_header(packet);
    if args.len() == 0 {
        None
    } else {
        match crate::codec::vl64_decode_spec(vstd::utf8::encode_utf8(text_after_spec(args, 1))) {
            Ok((v, _)) => if v > 0 {
                Some((args[0] == 'A', v))
            } else {
                None
            },
            Err(_) => None,
        }
    }
}

/// The room number of a request to enter a room can be decoded.
pub open spec fn room_entry_request_decodable(packet: Seq<char>) -> bool {
    after_header(packet).len() > 0 ==> crate::codec::vl64_decodable(
        vstd::utf8::encode_utf8(text_after_spec(after_header(packet), 1)),
    )
}

/// What a request to enter a room asks for (see `room_entry_request_spec`).
pub fn room_entry_request(packet: &str) -> (r: Option<(bool, i64)>)
    requires
        room_entry_request_decodable(packet@),
    ensures
        match room_entry_request_spec(packet@) {
            Some((p, id)) => r == Some((p, id as i64)),
            None => r is None,
        },
{
    let args = packet_body(packet);
    let cs = to_chars(args);
    if cs.len() == 0 {
        return None;
    }
    let is_public = cs[0] == 'A';
    let data = text_after(args, 1);
    proof {
        if crate::codec::vl64_decode_spec(data.spec_bytes()) is Ok {
            crate::codec::lemma_vl64_decoded_range(data.spec_bytes());
        }
    }
    match crate::codec::decode_vl64(data) {
        Ok((v, _)) => if v > 0 {
            Some((is_public, v as i64))
        } else {
            None
        },
        Err(_) => None,
    }
}

/// Why a user may not go through a room's door.
#[derive(PartialEq, Eq, Structural, Clone, Copy, Debug)]
pub enum DoorRefusal {
    /// The room is for club members (state 3).
    ClubOnly,
    /// The room is for staff (state 4).
    StaffOnly,
    /// Every place is taken.
    Full,
}

/// Whether a user may go through a room's door, from the room's row
/// `state, visitors_now, visitors_max` (each 0 when it does not read):
/// club rooms need club membership, staff rooms the right to enter locked
/// rooms (which also opens club rooms), and a full room the right to enter
/// full rooms. A short row lets everyone in.
pub open spec fn door_check_spec(row: Seq<Seq<char>>, is_club: bool, may_enter_locked: bool, may_enter_full: bool) -> Option<DoorRefusal> {
    if row.len() < 3 {
        None
    } else {
        let access = match parse_int_spec(row[0], true, i32::MIN as int, i32::MAX as int) {
            Some(v) => v,
            None => 0,
        };
        let now = match parse_int_spec(row[1], true, i64::MIN as int, i64::MAX as int) {
            Some(v) => v,
            None => 0,
        };
        let max = match parse_int_spec(row[2], true, i64::MIN as int, i64::MAX as int) {
            Some(v) => v,
            None => 0,
        };
        if access == 3 && !is_club && !may_enter_locked {
            Some(DoorRefusal::ClubOnly)
        } else if access == 4 && !may_enter_locked {
            Some(DoorRefusal::StaffOnly)
        } else if now > 0 && max > 0 && now >= max && !may_enter_full {
            Some(DoorRefusal::Full)
        } else {
            None
        }
    }
}

/// Whether a user may go through a room's door (see `door_check_spec`).
pub fn door_check(row: &[String], is_club: bool, may_enter_locked: bool, may_enter_full: bool) -> (r: Option<DoorRefusal>)
    ensures
        r == door_check_spec(crate::strings::strings_view(row@), is_club, may_enter_locked, may_enter_full),
{
    let ghost rv = crate::strings::strings_view(row@);
    if row.len() < 3 {
        return None;
    }
    assert(rv[0] == row@[0]@ && rv[1] == row@[1]@ && rv[2] == row@[2]@);
    let access = match parse_i32(row[0].as_str()) {
        Some(v) => v,
        None => 0,
    };
    let now = match parse_i64(row[1].as_str()) {
        Some(v) => v,
        None => 0,
    };
    let max = match parse_i64(row[2].as_str()) {
        Some(v) => v,
        None => 0,
    };
    if access == 3 && !is_club && !may_enter_locked {
        Some(DoorRefusal::ClubOnly)
    } else if access == 4 && !may_enter_locked {
        Some(DoorRefusal::StaffOnly)
    } else if now > 0 && max > 0 && now >= max && !may_enter_full {
        Some(DoorRefusal::Full)
    } else {
        None
    }
}

// ---------------------------------------------------------------- teleporters

/// Where a teleporter leads, by the room its partner stands in: nowhere
/// when the partner stands in no room, within the room, or to another room.
#[derive(PartialEq, Eq, Structural, Clone, Copy, Debug)]
pub enum TeleportTrip {
    Nowhere,
    SameRoom,
    OtherRoom,
}

/// Where a teleporter leads (see `TeleportTrip`).
pub fn teleport_trip(current_room_id: i64, partner_room_id: i64) -> (r: TeleportTrip)
    ensures
        partner_room_id <= 0 ==> r == TeleportTrip::Nowhere,
        partner_room_id > 0 && partner_room_id == current_room_id ==> r == TeleportTrip::SameRoom,
        partner_room_id > 0 && partner_room_id != current_room_id ==> r == TeleportTrip::OtherRoom,
{
    if partner_room_id <= 0 {
        TeleportTrip::Nowhere
    } else if partner_room_id == current_room_id {
        TeleportTrip::SameRoom
    } else {
        TeleportTrip::OtherRoom
    }
}

/// The packet that sends a user through a teleporter to another room: `@~`,
/// the partner teleporter and its room.
pub fn teleport_away_packet(partner_id: i64, partner_room_id: i64) -> (r: String)
    requires
        vl_ok(partner_id as int),
        vl_ok(partner_room_id as int),
    ensures
        r@ == "@~"@ + vl(partner_id as int) + vl(partner_room_id as int),
{
    let mut s = owned("@~");
    push_vl(&mut s, partner_id);
    push_vl(&mut s, partner_room_id);
    s
}

/// The packet that shows a user stepping into a teleporter: `AY`, the
/// teleporter, the user and the sprite, separated by `/`.
pub fn teleport_flash_packet(teleporter_id: i64, username: &str, sprite: &str) -> (r: String)
    ensures
        r@ == "AY"@ + int_text(teleporter_id as int) + seq!['/'] + username@ + seq!['/'] + sprite@,
{
    let mut s = owned("AY");
    push_i64(&mut s, teleporter_id);
    push_char(&mut s, '/');
    push_str(&mut s, username);
    push_char(&mut s, '/');
    push_str(&mut s, sprite);
    s
}

// ---------------------------------------------------------------- dice

/// A user can touch a die standing on a neighbouring tile or their own.
pub fn dice_in_reach(user_x: i32, user_y: i32, item_x: i32, item_y: i32) -> (r: bool)
    requires
        i32::MIN < user_x - item_x <= i32::MAX,
        i32::MIN < user_y - item_y <= i32::MAX,
    ensures
        r == (-1 <= user_x - item_x <= 1 && -1 <= user_y - item_y <= 1),
{
    let dx = user_x - item_x;
    let dy = user_y - item_y;
    let ax = if dx < 0 { -dx } else { dx };
    let ay = if dy < 0 { -dy } else { dy };
    !(ax > 1 || ay > 1)
}

/// The face a die shows after a roll, from the milliseconds of the clock
/// when it was rolled: 1 to 6.
pub fn dice_face(millis: u32) -> (r: i32)
    ensures
        r == millis % 6 + 1,
        1 <= r <= 6,
{
    (millis % 6 + 1) as i32
}

/// The packet that shows a die: `AZ` and the die while it rolls; when it
/// shows a face (or is closed, face 0), a space and the die times 38 plus
/// the face.
pub fn dice_packet(item_id: i64, face: Option<i32>) -> (r: String)
    requires
        face matches Some(f) ==> i64::MIN <= item_id * 38 <= i64::MAX && i64::MIN <= item_id * 38 + f <= i64::MAX,
    ensures
        r@ == "AZ"@ + int_text(item_id as int) + match face {
            Some(f) => seq![' '] + int_text(item_id * 38 + f),
            None => Seq::empty(),
        },
{
    let mut s = owned("AZ");
    push_i64(&mut s, item_id);
    match face {
        Some(f) => {
            push_char(&mut s, ' ');
            push_i64(&mut s, item_id * 38 + f as i64);
        },
        None => {},
    }
    s
}

// ---------------------------------------------------------------- whispers

/// Whom a whisper is for and what it says: the receiver is the text after
/// the first four bytes up to its first space, and the message is what
/// follows the receiver's bytes and five more.
pub open spec fn whisper_spec(packet: Seq<char>) -> (Seq<char>, Seq<char>) {
    let receiver = split_spec(text_after_spec(packet, 4), ' ')[0];
    (receiver, text_after_spec(packet, vstd::utf8::encode_utf8(receiver).len() + 5int))
}

/// Whom a whisper is for and what it says (see `whisper_spec`).
pub fn whisper_parts(packet: &str) -> (r: (String, String))
    ensures
        r.0@ == whisper_spec(packet@).0,
        r.1@ == whisper_spec(packet@).1,
{
    let rest = to_chars(text_after(packet, 4));
    let pieces = split_chars(rest.as_slice(), ' ');
    proof {
        crate::text::lemma_split_nonempty(rest@, ' ');
    }
    let receiver = crate::text::string_of(pieces[0].as_slice());
    let n = receiver.as_str().as_bytes().len();
    let total = packet.as_bytes().len();
    if n > usize::MAX - 5 {
        assert(!vstd::utf8::is_char_boundary(packet.spec_bytes(), n + 5));
        return (receiver, String::new());
    }
    let message = owned(text_after(packet, n + 5));
    (receiver, message)
}

// ---------------------------------------------------------------- votes

/// A vote on a room is +1 or -1, as a VL64 number after the header.
pub fn room_vote_value(packet: &str) -> (r: Option<i32>)
    requires
        crate::codec::vl64_decodable(vstd::utf8::encode_utf8(after_header(packet@))),
    ensures
        match crate::session::packet_vl64_spec(packet@) {
            Some(v) => if v == 1 || v == -1 {
                r == Some(v as i32)
            } else {
                r is None
            },
            None => r is None,
        },
{
    proof {
        let b = vstd::utf8::encode_utf8(after_header(packet@));
        if crate::codec::vl64_decode_spec(b) is Ok {
            crate::codec::lemma_vl64_decoded_range(b);
        }
    }
    match crate::session::packet_vl64(packet) {
        Some(v) => if v == 1 || v == -1 {
            Some(v)
        } else {
            None
        },
        None => None,
    }
}

/// The packet with a room's score: `EY` and the sum of its votes, never
/// below 0, taken as `i32`.
pub fn room_score_packet(sum: i64) -> (r: String)
    requires
        vl_ok(if sum > 0 { sum as int } else { 0 }),
    ensures
        r@ == "EY"@ + vl(if sum > 0 { sum as int } else { 0 }),
{
    let mut s = owned("EY");
    push_vl(&mut s, if sum > 0 { sum } else { 0 });
    s
}

} // verus!
