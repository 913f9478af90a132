//! Creating and changing guest rooms: what each request asks for, read
//! before the owner's rooms are touched.
use vstd::prelude::*;

use crate::rooms::{room_state_id, room_state_id_spec};
use crate::session::{after_header, packet_body};
use crate::stickies::{text_range, text_range_spec};
use crate::strings::{escape_spec, stripslash};
use crate::text::{find_char, find_char_exec, parse_int_spec, parse_i64_chars, split_spec, split_chars, str_eq, to_chars, string_of, sub_chars, chars_eq, owned};

use crate::moodlight::i32_or;

verus! {

// ---------------------------------------------------------------- name, door and visibility

/// What a change of a room's name, door and visibility asks for.
pub struct RoomCoreUpdate {
    pub room_id: i64,
    /// The new name as typed (it is filtered and escaped before it is
    /// stored).
    pub name: String,
    /// `1` or `0`.
    pub show_name: String,
    /// The door state, read from the same field as the visibility.
    pub state: i32,
}

/// An integer as `str::parse::<i64>` reads it, `default` when it does not.
pub open spec fn i64_or(s: Seq<char>, default: int) -> int {
    match parse_int_spec(s, true, i64::MIN as int, i64::MAX as int) {
        Some(v) => v,
        None => default,
    }
}

/// A change of a room's name, door and visibility: the text after the
/// header split at `/` into room, name and visibility (`1` or `0`, else
/// `1`); the door state is read from the visibility field too. Nothing
/// with fewer than three parts or a room that is not positive.
pub open spec fn room_core_spec(packet: Seq<char>) -> Option<(int, Seq<char>, Seq<char>, int)> {
    let parts = split_spec(after_header(packet), '/');
    if parts.len() < 3 || i64_or(parts[0], 0) <= 0 {
        None
    } else {
        Some(
            (
                i64_or(parts[0], 0),
                parts[1],
                if parts[2] == "1"@ || parts[2] == "0"@ {
                    parts[2]
                } else {
                    "1"@
                },
                room_state_id_spec(parts[2]),
            ),
        )
    }
}

fn i64_or_exec(cs: &[char], default: i64) -> (r: i64)
    ensures
        r as int == i64_or(cs@, default as int),
{
    match parse_i64_chars(cs) {
        Some(v) => v,
        None => default,
    }
}

/// A change of a room's name, door and visibility (see `room_core_spec`).
pub fn room_core_request(packet: &str) -> (r: Option<RoomCoreUpdate>)
    ensures
        match room_core_spec(packet@) {
            Some((id, name, show, state)) => r matches Some(u) && u.room_id as int == id && u.name@ == name
                && u.show_name@ == show && u.state as int == state,
            None => r is None,
        },
{
    let cs = to_chars(packet_body(packet));
    let parts = split_chars(cs.as_slice(), '/');
    if parts.len() < 3 {
        return None;
    }
    let room_id = i64_or_exec(parts[0].as_slice(), 0);
    if room_id <= 0 {
        return None;
    }
    let visibility = string_of(parts[2].as_slice());
    let show_name = if str_eq(visibility.as_str(), "1") || str_eq(visibility.as_str(), "0") {
        visibility.clone()
    } else {
        owned("1")
    };
    let state = room_state_id(visibility.as_str());
    Some(RoomCoreUpdate { room_id, name: string_of(parts[1].as_slice()), show_name, state })
}

// ---------------------------------------------------------------- creating a room

/// What a request to create a room asks for.
pub struct RoomCreation {
    /// The name as typed (it is filtered and escaped before it is stored).
    pub name: String,
    /// The model letter: the seventh byte of the model field.
    pub model: String,
    pub state: i32,
    /// `0` or `1`.
    pub show_name: String,
}

/// How a request to create a room reads.
pub enum CreationRequest {
    /// Fewer than six `/`-separated parts: nothing happens.
    Short,
    /// The visibility is neither `0` nor `1`: nothing is created.
    BadVisibility,
    Create(RoomCreation),
}

/// How a request to create a room reads: the packet split at `/`; name,
/// model, door and visibility are parts 2 to 5.
pub open spec fn creation_spec(packet: Seq<char>) -> Option<Option<(Seq<char>, Seq<char>, int, Seq<char>)>> {
    let parts = split_spec(packet, '/');
    if parts.len() < 6 {
        None
    } else if parts[5] != "0"@ && parts[5] != "1"@ {
        Some(None)
    } else {
        Some(Some((parts[2], text_range_spec(parts[3], 6, 7), room_state_id_spec(parts[4]), parts[5])))
    }
}

/// How a request to create a room reads (see `creation_spec`).
pub fn creation_request(packet: &str) -> (r: CreationRequest)
    ensures
        match creation_spec(packet@) {
            None => r is Short,
            Some(None) => r is BadVisibility,
            Some(Some((name, model, state, show))) => r matches CreationRequest::Create(c) && c.name@ == name
                && c.model@ == model && c.state as int == state && c.show_name@ == show,
        },
{
    let cs = to_chars(packet);
    let parts = split_chars(cs.as_slice(), '/');
    if parts.len() < 6 {
        return CreationRequest::Short;
    }
    let show = string_of(parts[5].as_slice());
    if !str_eq(show.as_str(), "0") && !str_eq(show.as_str(), "1") {
        return CreationRequest::BadVisibility;
    }
    let model_field = string_of(parts[3].as_slice());
    let door = string_of(parts[4].as_slice());
    CreationRequest::Create(
        RoomCreation {
            name: string_of(parts[2].as_slice()),
            model: owned(text_range(model_field.as_str(), 6, 7)),
            state: room_state_id(door.as_str()),
            show_name: show,
        },
    )
}

// ---------------------------------------------------------------- details

/// The details a room owner may change: description, whether everyone may
/// move furniture, the visitor limit and the password.
pub struct RoomDetails {
    pub room_id: i64,
    /// The description as typed (it is filtered and escaped before it is
    /// stored); empty when not given.
    pub description: String,
    /// 1 when everyone has rights, else 0.
    pub super_users: i64,
    /// 10 to 25.
    pub max_visitors: i64,
    /// Escaped for the query; empty when not given.
    pub password: String,
}

/// The details so far: description, super users, visitor limit, password.
pub type DetailsDraft = (Seq<char>, int, int, Seq<char>);

/// One `key=value` line of a details change: `None` when it has no `=` or
/// an unknown key. Super users other than 0 or 1 count as 0; a visitor
/// limit outside 10 to 25 counts as 25; the password is escaped.
pub open spec fn apply_detail(d: DetailsDraft, line: Seq<char>) -> Option<DetailsDraft> {
    match find_char(line, '=') {
        None => None,
        Some(i) => {
            let key = line.subrange(0, i);
            let value = line.subrange(i + 1, line.len() as int);
            if key == "description"@ {
                Some((value, d.1, d.2, d.3))
            } else if key == "allsuperuser"@ {
                let v = i64_or(value, 0);
                Some((d.0, if v == 0 || v == 1 { v } else { 0 }, d.2, d.3))
            } else if key == "maxvisitors"@ {
                let v = i64_or(value, 25);
                Some((d.0, d.1, if 10 <= v <= 25 { v } else { 25 }, d.3))
            } else if key == "password"@ {
                Some((d.0, d.1, d.2, escape_spec(value)))
            } else {
                None
            }
        },
    }
}

/// The details after the lines `lines` (in order); `None` at the first bad
/// line.
pub open spec fn apply_details(d: DetailsDraft, lines: Seq<Seq<char>>) -> Option<DetailsDraft>
    decreases lines.len(),
{
    if lines.len() == 0 {
        Some(d)
    } else {
        match apply_details(d, lines.drop_last()) {
            None => None,
            Some(d2) => apply_detail(d2, lines.last()),
        }
    }
}

/// The room a details change is for: after `/` when the text after the
/// header starts with one (the second `/`-separated part of the packet),
/// else the text after the header up to its first `/`; 0 when it does not
/// read.
pub open spec fn details_room_spec(packet: Seq<char>) -> int {
    if text_range_spec(packet, 2, 3) == "/"@ {
        let parts = split_spec(packet, '/');
        if parts.len() > 1 {
            i64_or(parts[1], 0)
        } else {
            0
        }
    } else {
        i64_or(split_spec(after_header(packet), '/')[0], 0)
    }
}

/// A details change: the room (see `details_room_spec`), then the lines
/// after the first line break. Nothing for a room that is not positive or
/// a bad line.
pub open spec fn room_details_spec(packet: Seq<char>) -> Option<(int, DetailsDraft)> {
    let room = details_room_spec(packet);
    let lines = split_spec(packet, '\r');
    if room <= 0 {
        None
    } else {
        match apply_details((Seq::empty(), 0, 25, Seq::empty()), lines.subrange(1, lines.len() as int)) {
            Some(d) => Some((room, d)),
            None => None,
        }
    }
}

/// Once a line is bad, the whole change is.
proof fn lemma_details_none(d: DetailsDraft, lines: Seq<Seq<char>>, k: int)
    requires
        0 <= k <= lines.len(),
        apply_details(d, lines.take(k)) is None,
    ensures
        apply_details(d, lines) is None,
    decreases lines.len(),
{
    if lines.len() == k {
        assert(lines.take(k) =~= lines);
    } else {
        assert(lines.drop_last().take(k) =~= lines.take(k));
        lemma_details_none(d, lines.drop_last(), k);
    }
}

fn details_room(packet: &str) -> (r: i64)
    ensures
        r as int == details_room_spec(packet@),
{
    proof {
        crate::text::lemma_split_nonempty(after_header(packet@), '/');
    }
    if str_eq(text_range(packet, 2, 3), "/") {
        let cs = to_chars(packet);
        let parts = split_chars(cs.as_slice(), '/');
        if parts.len() > 1 {
            i64_or_exec(parts[1].as_slice(), 0)
        } else {
            0
        }
    } else {
        let cs = to_chars(packet_body(packet));
        let parts = split_chars(cs.as_slice(), '/');
        i64_or_exec(parts[0].as_slice(), 0)
    }
}

/// A details change (see `room_details_spec`).
pub fn room_details_request(packet: &str) -> (r: Option<RoomDetails>)
    ensures
        match room_details_spec(packet@) {
            Some((room, d)) => r matches Some(u) && u.room_id as int == room && u.description@ == d.0
                && u.super_users as int == d.1 && u.max_visitors as int == d.2 && u.password@ == d.3,
            None => r is None,
        },
{
    let room_id = details_room(packet);
    if room_id <= 0 {
        return None;
    }
    let cs = to_chars(packet);
    let lines = split_chars(cs.as_slice(), '\r');
    let ghost ls = split_spec(packet@, '\r');
    proof {
        crate::text::lemma_split_nonempty(packet@, '\r');
    }
    let n = lines.len();
    let ghost sub = ls.subrange(1, n as int);
    let ghost init: DetailsDraft = (Seq::empty(), 0, 25, Seq::empty());
    let mut description = String::new();
    let mut super_users: i64 = 0;
    let mut max_visitors: i64 = 25;
    let mut password = String::new();
    let mut i: usize = 1;
    assert(sub.take(0) =~= Seq::<Seq<char>>::empty());
    while i < n
        invariant
            n == ls.len(),
            n == lines@.len(),
            n >= 1,
            1 <= i <= n,
            sub == ls.subrange(1, n as int),
            ls == split_spec(packet@, '\r'),
            room_id as int == details_room_spec(packet@),
            room_id > 0,
            init == (Seq::<char>::empty(), 0int, 25int, Seq::<char>::empty()),
            forall|j: int| 0 <= j < n ==> #[trigger] lines@[j]@ == ls[j],
            apply_details(init, sub.take(i - 1)) == Some(
                (description@, super_users as int, max_visitors as int, password@),
            ),
        decreases n - i,
    {
        let line = &lines[i];
        let ln = line.len();
        assert(sub.take(i as int).drop_last() =~= sub.take(i - 1));
        assert(sub.take(i as int).last() == line@);
        let eq = match find_char_exec(line.as_slice(), '=') {
            Some(k) => k,
            None => {
                proof {
                    lemma_details_none(init, sub, i as int);
                }
                return None;
            },
        };
        assert(eq < ln);
        let key = sub_chars(line.as_slice(), 0, eq);
        let value = sub_chars(line.as_slice(), eq + 1, ln);
        if chars_eq(key.as_slice(), to_chars("description").as_slice()) {
            description = string_of(value.as_slice());
        } else if chars_eq(key.as_slice(), to_chars("allsuperuser").as_slice()) {
            let v = i64_or_exec(value.as_slice(), 0);
            super_users = if v == 0 || v == 1 { v } else { 0 };
        } else if chars_eq(key.as_slice(), to_chars("maxvisitors").as_slice()) {
            let v = i64_or_exec(value.as_slice(), 25);
            max_visitors = if 10 <= v && v <= 25 { v } else { 25 };
        } else if chars_eq(key.as_slice(), to_chars("password").as_slice()) {
            password = stripslash(string_of(value.as_slice()).as_str());
        } else {
            proof {
                lemma_details_none(init, sub, i as int);
            }
            return None;
        }
        i += 1;
    }
    assert(sub.take(n - 1) =~= sub);
    Some(RoomDetails { room_id, description, super_users, max_visitors, password })
}

// ---------------------------------------------------------------- category

/// The packet that tells a room's owner its category: `C^`, the room and
/// the category (0 when it does not read); nothing when the room is not
/// the owner's (no category).
pub fn room_category_packet(room_id: i32, category: &str) -> (r: Option<String>)
    requires
        room_id != i32::MIN,
        category@.len() > 0 ==> i32_or(category@, 0) != i32::MIN as int,
    ensures
        category@.len() == 0 ==> r is None,
        category@.len() > 0 ==> (r matches Some(p) && p@ == "C^"@ + crate::codec::vl64_text(room_id as int)
            + crate::codec::vl64_text(i32_or(category@, 0))),
{
    if category.is_empty() {
        return None;
    }
    let mut s = owned("C^");
    crate::codec::push_vl64(&mut s, room_id);
    let c = match crate::text::parse_i32(category) {
        Some(v) => v,
        None => 0,
    };
    crate::codec::push_vl64(&mut s, c);
    Some(s)
}

} // verus!
