//! The room navigator: what a category request asks for, the order in which
//! a category's rooms are listed, and the listing sent back.
use vstd::prelude::*;
use vstd::utf8::is_char_boundary;
use vstd::string::StringSliceAdditionalSpecFns;

use crate::codec::{vl64_decode_spec, vl64_decodable, vl64_decode_bytes, vl64_text, push_vl64, vl64_digits};
use crate::text::{push_char, push_str, push_i64, int_text, wrap32, trunc_i64, trunc_usize, owned};
use crate::rooms::room_state_name;
use crate::moodlight::i32_or;
use crate::strings::strings_view;
use crate::text::{parse_i32, str_eq};

verus! {

broadcast use vstd::utf8::encode_utf8_valid_utf8, vstd::utf8::encode_utf8_decode_utf8;

/// The number that a VL64 text decodes to, if it decodes.
pub open spec fn vl64_value(raw: Seq<u8>) -> Option<int> {
    match vl64_decode_spec(raw) {
        Ok((v, _)) => Some(v),
        Err(_) => None,
    }
}

/// What a category request asks for, from its bytes: whether full rooms are
/// hidden (the VL64 number in the third byte) and the category (the VL64
/// number after it). Nothing when the packet is shorter than four bytes, its
/// third byte is not a character of its own, or a number does not decode.
pub open spec fn navigator_request_spec(b: Seq<u8>) -> Option<(int, int)> {
    if b.len() < 4 || !is_char_boundary(b, 2) || !is_char_boundary(b, 3) {
        None
    } else {
        match vl64_value(b.subrange(2, 3)) {
            None => None,
            Some(h) => match vl64_value(b.subrange(3, b.len() as int)) {
                None => None,
                Some(c) => Some((h, c)),
            },
        }
    }
}

/// The decoder can read the category number whenever it gets that far.
pub open spec fn navigator_request_decodable(b: Seq<u8>) -> bool {
    (b.len() >= 4 && is_char_boundary(b, 2) && is_char_boundary(b, 3) && vl64_value(b.subrange(2, 3))
        is Some) ==> vl64_decodable(b.subrange(3, b.len() as int))
}

proof fn lemma_one_byte_decodable(raw: Seq<u8>)
    requires
        raw.len() == 1,
    ensures
        vl64_decodable(raw),
{
    assert(raw.subrange(1, 1) =~= Seq::<u8>::empty());
    assert(vl64_digits(raw.subrange(1, 1)) == 0);
}

/// Whether full rooms are hidden, and the category, that a category request
/// asks for (see `navigator_request_spec`).
pub fn navigator_request(packet: &str) -> (r: Option<(i32, i32)>)
    requires
        navigator_request_decodable(packet.spec_bytes()),
    ensures
        match navigator_request_spec(packet.spec_bytes()) {
            Some((h, c)) => r == Some((h as i32, c as i32)),
            None => r is None,
        },
{
    let b = packet.as_bytes();
    if b.len() < 4 || !packet.is_char_boundary(2) || !packet.is_char_boundary(3) {
        return None;
    }
    let (_, from_two) = b.split_at(2);
    let (third, _) = from_two.split_at(1);
    let (_, rest) = b.split_at(3);
    assert(third@ =~= b@.subrange(2, 3));
    proof {
        lemma_one_byte_decodable(third@);
    }
    let hide_full = match vl64_decode_bytes(third) {
        Ok((v, _)) => v,
        Err(_) => {
            return None;
        },
    };
    let category = match vl64_decode_bytes(rest) {
        Ok((v, _)) => v,
        Err(_) => {
            return None;
        },
    };
    Some((hide_full, category))
}

/// The end of the query that lists a category's rooms. Public rooms
/// (category type 0) come by id; others by visitors, most first, at most
/// 30 when full rooms are hidden and `max_results` otherwise. Hiding full
/// rooms keeps those with room left.
pub open spec fn room_order_spec(category_type: i64, hide_full: i64, max_results: i64) -> Seq<char> {
    if category_type == 0 {
        if hide_full == 1 {
            "AND visitors_now < visitors_max ORDER BY id ASC"@
        } else {
            "ORDER BY id ASC"@
        }
    } else if hide_full == 1 {
        "AND visitors_now < visitors_max ORDER BY visitors_now DESC LIMIT 30"@
    } else {
        "ORDER BY visitors_now DESC LIMIT "@ + int_text(max_results as int)
    }
}

/// The end of the query that lists a category's rooms (see `room_order_spec`).
pub fn navigator_room_order(category_type: i64, hide_full: i64, max_results: i64) -> (r: String)
    ensures
        r@ == room_order_spec(category_type, hide_full, max_results),
{
    if category_type == 0 {
        if hide_full == 1 {
            owned("AND visitors_now < visitors_max ORDER BY id ASC")
        } else {
            owned("ORDER BY id ASC")
        }
    } else if hide_full == 1 {
        owned("AND visitors_now < visitors_max ORDER BY visitors_now DESC LIMIT 30")
    } else {
        let mut s = owned("ORDER BY visitors_now DESC LIMIT ");
        push_i64(&mut s, max_results);
        s
    }
}

/// A room of the category being listed.
#[derive(Debug, Clone)]
pub struct NavigatorRoom {
    pub id: i64,
    pub name: String,
    pub owner: String,
    pub state: i64,
    pub show_name: i64,
    pub visitors_now: i64,
    pub visitors_max: i64,
    pub description: String,
    pub ccts: String,
}

/// A subcategory of the category being listed, with the visitors of its
/// rooms summed up.
#[derive(Debug, Clone)]
pub struct NavigatorSubcategory {
    pub id: i64,
    pub name: String,
    pub visitors_now: i64,
    pub visitors_max: i64,
}

/// The VL64 text of a number taken as `i32`.
pub open spec fn vl(x: int) -> Seq<char> {
    vl64_text(wrap32(x))
}

/// A number can be written as VL64 once taken as `i32`: the encoder cannot
/// negate `i32::MIN`.
pub open spec fn vl_ok(x: int) -> bool {
    wrap32(x) != i32::MIN as int
}

/// The name of a door state number: `closed`, `password`, else `open`.
pub open spec fn door_state_name(state: int) -> Seq<char> {
    if state == 1 {
        "closed"@
    } else if state == 2 {
        "password"@
    } else {
        "open"@
    }
}

/// The line of a public room: id, a 1, name, visitors, the category,
/// description, the id again, a 0 and the room's casts.
pub open spec fn public_room_line(r: NavigatorRoom, category: int) -> Seq<char> {
    vl(r.id as int) + vl(1) + r.name@ + seq!['\u{2}'] + vl(r.visitors_now as int) + vl(r.visitors_max as int)
        + vl(category) + r.description@ + seq!['\u{2}'] + vl(r.id as int) + vl(0) + r.ccts@ + seq![
        '\u{2}',
        'H',
        'I',
    ]
}

/// The line of a guest room: id, name, owner, door state, visitors and
/// description.
pub open spec fn guest_room_line(r: NavigatorRoom) -> Seq<char> {
    vl(r.id as int) + r.name@ + seq!['\u{2}'] + r.owner@ + seq!['\u{2}'] + door_state_name(wrap32(r.state as int))
        + seq!['\u{2}'] + vl(r.visitors_now as int) + vl(r.visitors_max as int) + r.description@ + seq!['\u{2}']
}

/// A guest room is listed when it shows its name or the viewer may see
/// hidden ones.
pub open spec fn guest_room_listed(r: NavigatorRoom, can_see_hidden: bool) -> bool {
    r.show_name != 0 || can_see_hidden
}

/// The lines of public rooms, in order.
pub open spec fn public_rooms_text(rooms: Seq<NavigatorRoom>, category: int) -> Seq<char>
    decreases rooms.len(),
{
    if rooms.len() == 0 {
        Seq::empty()
    } else {
        public_rooms_text(rooms.drop_last(), category) + public_room_line(rooms.last(), category)
    }
}

/// The lines of the guest rooms that are listed, in order.
pub open spec fn guest_rooms_text(rooms: Seq<NavigatorRoom>, can_see_hidden: bool) -> Seq<char>
    decreases rooms.len(),
{
    if rooms.len() == 0 {
        Seq::empty()
    } else {
        guest_rooms_text(rooms.drop_last(), can_see_hidden) + (if guest_room_listed(rooms.last(), can_see_hidden) {
            guest_room_line(rooms.last())
        } else {
            Seq::empty()
        })
    }
}

/// A subcategory is left out when full rooms are hidden and all of its
/// places are taken.
pub open spec fn subcategory_listed(s: NavigatorSubcategory, hide_full: int) -> bool {
    !(s.visitors_max > 0 && hide_full == 1 && s.visitors_now >= s.visitors_max)
}

/// The line of a subcategory: id, a 0, name, visitors and the parent
/// category.
pub open spec fn subcategory_line(s: NavigatorSubcategory, category: int) -> Seq<char> {
    vl(s.id as int) + vl(0) + s.name@ + seq!['\u{2}'] + vl(s.visitors_now as int) + vl(s.visitors_max as int)
        + vl(category)
}

/// The lines of the subcategories that are listed, in order.
pub open spec fn subcategories_text(subs: Seq<NavigatorSubcategory>, hide_full: int, category: int) -> Seq<char>
    decreases subs.len(),
{
    if subs.len() == 0 {
        Seq::empty()
    } else {
        subcategories_text(subs.drop_last(), hide_full, category) + (if subcategory_listed(subs.last(), hide_full) {
            subcategory_line(subs.last(), category)
        } else {
            Seq::empty()
        })
    }
}

/// The head of a category listing: whether full rooms are hidden, the
/// category, its type and name, two fixed numbers, the parent category, and
/// for type 2 the number of rooms.
pub open spec fn listing_head(hide_full: int, category: int, category_type: int, name: Seq<char>, parent: int, room_count: int) -> Seq<char> {
    seq!['C', '\\'] + vl(hide_full) + vl(category) + vl(category_type) + name + seq!['\u{2}'] + vl(0) + vl(10000)
        + vl(parent) + (if category_type == 2 { vl(room_count) } else { Seq::empty() })
}

/// The listing of a category: the head, the rooms (public ones when the
/// category type is 0, guest rooms otherwise), then the subcategories.
pub open spec fn listing_spec(
    hide_full: int,
    category: int,
    category_type: int,
    name: Seq<char>,
    parent: int,
    rooms: Seq<NavigatorRoom>,
    can_see_hidden: bool,
    subs: Seq<NavigatorSubcategory>,
) -> Seq<char> {
    listing_head(hide_full, category, category_type, name, parent, rooms.len() as int) + (if category_type == 0 {
        public_rooms_text(rooms, category)
    } else {
        guest_rooms_text(rooms, can_see_hidden)
    }) + subcategories_text(subs, hide_full, category)
}

/// Every number the listing writes can be written: those of the head, of
/// each room that is listed and of each subcategory that is listed.
pub open spec fn listing_fits(
    hide_full: int,
    category: int,
    category_type: int,
    parent: int,
    rooms: Seq<NavigatorRoom>,
    can_see_hidden: bool,
    subs: Seq<NavigatorSubcategory>,
) -> bool {
    &&& vl_ok(hide_full)
    &&& vl_ok(category)
    &&& vl_ok(category_type)
    &&& vl_ok(parent)
    &&& (category_type == 2 ==> vl_ok(rooms.len() as int))
    &&& forall|i: int|
        0 <= i < rooms.len() && (category_type == 0 || guest_room_listed(#[trigger] rooms[i], can_see_hidden))
            ==> vl_ok(rooms[i].id as int) && vl_ok(rooms[i].visitors_now as int) && vl_ok(
            rooms[i].visitors_max as int,
        )
    &&& forall|i: int|
        0 <= i < subs.len() && subcategory_listed(#[trigger] subs[i], hide_full) ==> vl_ok(subs[i].id as int)
            && vl_ok(subs[i].visitors_now as int) && vl_ok(subs[i].visitors_max as int)
}

/// Appends the VL64 text of a number taken as `i32`.
pub(crate) fn push_vl(s: &mut String, x: i64)
    requires
        vl_ok(x as int),
    ensures
        final(s)@ == old(s)@ + vl(x as int),
{
    push_vl64(s, trunc_i64(x));
}

fn push_public_room_line(s: &mut String, r: &NavigatorRoom, category: i64)
    requires
        vl_ok(r.id as int),
        vl_ok(r.visitors_now as int),
        vl_ok(r.visitors_max as int),
        vl_ok(category as int),
    ensures
        final(s)@ == old(s)@ + public_room_line(*r, category as int),
{
    let ghost before = s@;
    push_vl(s, r.id);
    push_vl(s, 1);
    push_str(s, r.name.as_str());
    push_char(s, '\u{2}');
    push_vl(s, r.visitors_now);
    push_vl(s, r.visitors_max);
    push_vl(s, category);
    push_str(s, r.description.as_str());
    push_char(s, '\u{2}');
    push_vl(s, r.id);
    push_vl(s, 0);
    push_str(s, r.ccts.as_str());
    push_char(s, '\u{2}');
    push_char(s, 'H');
    push_char(s, 'I');
    assert(s@ =~= before + public_room_line(*r, category as int));
}

fn push_guest_room_line(s: &mut String, r: &NavigatorRoom)
    requires
        vl_ok(r.id as int),
        vl_ok(r.visitors_now as int),
        vl_ok(r.visitors_max as int),
    ensures
        final(s)@ == old(s)@ + guest_room_line(*r),
{
    let ghost before = s@;
    push_vl(s, r.id);
    push_str(s, r.name.as_str());
    push_char(s, '\u{2}');
    push_str(s, r.owner.as_str());
    push_char(s, '\u{2}');
    push_str(s, room_state_name(trunc_i64(r.state)));
    push_char(s, '\u{2}');
    push_vl(s, r.visitors_now);
    push_vl(s, r.visitors_max);
    push_str(s, r.description.as_str());
    push_char(s, '\u{2}');
    assert(s@ =~= before + guest_room_line(*r));
}

fn push_subcategory_line(s: &mut String, c: &NavigatorSubcategory, category: i64)
    requires
        vl_ok(c.id as int),
        vl_ok(c.visitors_now as int),
        vl_ok(c.visitors_max as int),
        vl_ok(category as int),
    ensures
        final(s)@ == old(s)@ + subcategory_line(*c, category as int),
{
    let ghost before = s@;
    push_vl(s, c.id);
    push_vl(s, 0);
    push_str(s, c.name.as_str());
    push_char(s, '\u{2}');
    push_vl(s, c.visitors_now);
    push_vl(s, c.visitors_max);
    push_vl(s, category);
    assert(s@ =~= before + subcategory_line(*c, category as int));
}

/// The listing of a category (see `listing_spec`); nothing when the
/// category has no name, which is how a category that the viewer may not
/// see comes back.
pub fn navigator_listing(
    hide_full: i64,
    category: i64,
    category_type: i64,
    name: &str,
    parent: i64,
    rooms: &Vec<NavigatorRoom>,
    can_see_hidden: bool,
    subs: &Vec<NavigatorSubcategory>,
) -> (r: Option<String>)
    requires
        listing_fits(
            hide_full as int,
            category as int,
            category_type as int,
            parent as int,
            rooms@,
            can_see_hidden,
            subs@,
        ),
    ensures
        name@.len() == 0 ==> r is None,
        name@.len() > 0 ==> (r matches Some(p) && p@ == listing_spec(
            hide_full as int,
            category as int,
            category_type as int,
            name@,
            parent as int,
            rooms@,
            can_see_hidden,
            subs@,
        )),
{
    if name.is_empty() {
        return None;
    }
    let mut s = owned("C\\");
    proof {
        reveal_strlit("C\\");
    }
    push_vl(&mut s, hide_full);
    push_vl(&mut s, category);
    push_vl(&mut s, category_type);
    push_str(&mut s, name);
    push_char(&mut s, '\u{2}');
    push_vl(&mut s, 0);
    push_vl(&mut s, 10000);
    push_vl(&mut s, parent);
    if category_type == 2 {
        push_vl64(&mut s, trunc_usize(rooms.len()));
    }
    let ghost head = s@;
    assert(head =~= listing_head(hide_full as int, category as int, category_type as int, name@, parent as int, rooms@.len() as int));
    let n = rooms.len();
    let mut i: usize = 0;
    if category_type == 0 {
        while i < n
            invariant
                n == rooms@.len(),
                i <= n,
                category_type == 0,
                listing_fits(hide_full as int, category as int, category_type as int, parent as int, rooms@, can_see_hidden, subs@),
                s@ == head + public_rooms_text(rooms@.take(i as int), category as int),
            decreases n - i,
        {
            let ghost before = s@;
            push_public_room_line(&mut s, &rooms[i], category);
            assert(rooms@.take(i + 1).drop_last() =~= rooms@.take(i as int));
            i += 1;
        }
    } else {
        while i < n
            invariant
                n == rooms@.len(),
                i <= n,
                category_type != 0,
                listing_fits(hide_full as int, category as int, category_type as int, parent as int, rooms@, can_see_hidden, subs@),
                s@ == head + guest_rooms_text(rooms@.take(i as int), can_see_hidden),
            decreases n - i,
        {
            let ghost before = s@;
            if rooms[i].show_name != 0 || can_see_hidden {
                push_guest_room_line(&mut s, &rooms[i]);
            }
            assert(rooms@.take(i + 1).drop_last() =~= rooms@.take(i as int));
            i += 1;
        }
    }
    assert(rooms@.take(n as int) =~= rooms@);
    let ghost mid = s@;
    let m = subs.len();
    let mut j: usize = 0;
    while j < m
        invariant
            m == subs@.len(),
            j <= m,
            listing_fits(hide_full as int, category as int, category_type as int, parent as int, rooms@, can_see_hidden, subs@),
            s@ == mid + subcategories_text(subs@.take(j as int), hide_full as int, category as int),
        decreases m - j,
    {
        let c = &subs[j];
        let ghost before = s@;
        if !(c.visitors_max > 0 && hide_full == 1 && c.visitors_now >= c.visitors_max) {
            assert(subcategory_listed(subs@[j as int], hide_full as int));
            push_subcategory_line(&mut s, c, category);
        }
        assert(subs@.take(j + 1).drop_last() =~= subs@.take(j as int));
        j += 1;
    }
    assert(subs@.take(m as int) =~= subs@);
    Some(s)
}

// ---------------------------------------------------------------- favourite rooms

/// A favourite room as read: its id, its row `name, owner, state,
/// showname, visitors_now, visitors_max, description` (empty when the room
/// is gone), and for public rooms (no owner) its category and casts.
#[derive(Debug, Clone)]
pub struct FavouriteRow {
    pub id: i64,
    pub row: Vec<String>,
    pub category: i64,
    pub ccts: String,
}

/// The line of a public favourite: id, `I`, name, visitors, category,
/// description, the id again, `H` and the casts.
pub open spec fn public_favourite_line(e: FavouriteRow, r: Seq<Seq<char>>) -> Seq<char> {
    vl(e.id as int) + seq!['I'] + r[0] + seq!['\u{2}'] + vl64_text(i32_or(r[4], 0)) + vl64_text(i32_or(r[5], 0))
        + vl(e.category as int) + r[6] + seq!['\u{2}'] + vl(e.id as int) + seq!['H'] + e.ccts@ + seq!['\u{2}', 'H', 'I']
}

/// The owner shown for a guest favourite: `-` when the room hides its
/// owner's name from others and the viewer may not see hidden names.
pub open spec fn shown_owner(r: Seq<Seq<char>>, see_hidden: bool, username: Seq<char>) -> Seq<char> {
    if r[3] == "0"@ && username != r[1] && !see_hidden {
        "-"@
    } else {
        r[1]
    }
}

/// The line of a guest favourite: id, name, owner, door state, visitors and
/// description.
pub open spec fn guest_favourite_line(e: FavouriteRow, r: Seq<Seq<char>>, see_hidden: bool, username: Seq<char>) -> Seq<char> {
    vl(e.id as int) + r[0] + seq!['\u{2}'] + shown_owner(r, see_hidden, username) + seq!['\u{2}'] + door_state_name(
        i32_or(r[2], 0),
    ) + seq!['\u{2}'] + vl64_text(i32_or(r[4], 0)) + vl64_text(i32_or(r[5], 0)) + r[6] + seq!['\u{2}']
}

/// The favourites listed so far: the number of guest rooms, the number of
/// gone rooms counted against them (only once a guest room was listed), and
/// the lines. Rows too short to read are skipped.
pub open spec fn favourites_fold(es: Seq<FavouriteRow>, see_hidden: bool, username: Seq<char>) -> (int, int, Seq<char>)
    decreases es.len(),
{
    if es.len() == 0 {
        (0, 0, Seq::empty())
    } else {
        let (g, d, t) = favourites_fold(es.drop_last(), see_hidden, username);
        let e = es.last();
        let r = strings_view(e.row@);
        if r.len() == 0 {
            (g, if g > 0 { d + 1 } else { d }, t)
        } else if r.len() < 7 {
            (g, d, t)
        } else if r[1].len() == 0 {
            (g, d, t + public_favourite_line(e, r))
        } else {
            (g + 1, d, t + guest_favourite_line(e, r, see_hidden, username))
        }
    }
}

/// The favourites packet: `@}HHJ\u{2}HHH`, the guest rooms less the gone
/// ones, and the lines; nothing without favourites.
pub open spec fn favourites_spec(es: Seq<FavouriteRow>, see_hidden: bool, username: Seq<char>) -> Option<Seq<char>> {
    if es.len() == 0 {
        None
    } else {
        let (g, d, t) = favourites_fold(es, see_hidden, username);
        Some("@}HHJ\u{2}HHH"@ + vl64_text(g - d) + t)
    }
}

/// Each number a favourite's line writes can be written.
pub open spec fn favourite_fits(e: FavouriteRow) -> bool {
    let r = strings_view(e.row@);
    r.len() >= 7 ==> {
        &&& vl_ok(e.id as int)
        &&& i32_or(r[4], 0) != i32::MIN as int
        &&& i32_or(r[5], 0) != i32::MIN as int
        &&& (r[1].len() == 0 ==> vl_ok(e.category as int))
    }
}

fn i32_field(cs: &String) -> (r: i32)
    ensures
        r as int == i32_or(cs@, 0),
{
    match parse_i32(cs.as_str()) {
        Some(v) => v,
        None => 0,
    }
}

fn push_public_favourite(s: &mut String, e: &FavouriteRow, now: i32, max: i32)
    requires
        e.row@.len() >= 7,
        favourite_fits(*e),
        strings_view(e.row@)[1].len() == 0,
        now as int == i32_or(strings_view(e.row@)[4], 0),
        max as int == i32_or(strings_view(e.row@)[5], 0),
    ensures
        final(s)@ == old(s)@ + public_favourite_line(*e, strings_view(e.row@)),
{
    let ghost r = strings_view(e.row@);
    let ghost before = s@;
    let row = &e.row;
    assert(r[0] == row@[0]@ && r[6] == row@[6]@);
    push_vl(s, e.id);
    push_char(s, 'I');
    push_str(s, row[0].as_str());
    push_char(s, '\u{2}');
    push_vl64(s, now);
    push_vl64(s, max);
    push_vl(s, e.category);
    push_str(s, row[6].as_str());
    push_char(s, '\u{2}');
    push_vl(s, e.id);
    push_char(s, 'H');
    push_str(s, e.ccts.as_str());
    push_char(s, '\u{2}');
    push_char(s, 'H');
    push_char(s, 'I');
    assert(s@ =~= before + public_favourite_line(*e, r));
}

fn push_guest_favourite(s: &mut String, e: &FavouriteRow, see_hidden: bool, username: &str, now: i32, max: i32)
    requires
        e.row@.len() >= 7,
        favourite_fits(*e),
        now as int == i32_or(strings_view(e.row@)[4], 0),
        max as int == i32_or(strings_view(e.row@)[5], 0),
    ensures
        final(s)@ == old(s)@ + guest_favourite_line(*e, strings_view(e.row@), see_hidden, username@),
{
    let ghost r = strings_view(e.row@);
    let ghost before = s@;
    let row = &e.row;
    assert(r[0] == row@[0]@ && r[1] == row@[1]@ && r[2] == row@[2]@ && r[3] == row@[3]@ && r[6] == row@[6]@);
    push_vl(s, e.id);
    push_str(s, row[0].as_str());
    push_char(s, '\u{2}');
    let ghost mid = s@;
    if str_eq(row[3].as_str(), "0") && !str_eq(username, row[1].as_str()) && !see_hidden {
        push_char(s, '-');
        proof {
            reveal_strlit("-");
        }
    } else {
        push_str(s, row[1].as_str());
    }
    assert(s@ =~= mid + shown_owner(r, see_hidden, username@));
    push_char(s, '\u{2}');
    push_str(s, room_state_name(i32_field(&row[2])));
    push_char(s, '\u{2}');
    push_vl64(s, now);
    push_vl64(s, max);
    push_str(s, row[6].as_str());
    push_char(s, '\u{2}');
    assert(s@ =~= before + guest_favourite_line(*e, r, see_hidden, username@));
}

fn push_favourite_line(s: &mut String, e: &FavouriteRow, see_hidden: bool, username: &str) -> (guest: bool)
    requires
        e.row@.len() >= 7,
        favourite_fits(*e),
    ensures
        ({
            let r = strings_view(e.row@);
            &&& guest == (r[1].len() > 0)
            &&& final(s)@ == old(s)@ + if guest {
                guest_favourite_line(*e, r, see_hidden, username@)
            } else {
                public_favourite_line(*e, r)
            }
        }),
{
    let ghost r = strings_view(e.row@);
    assert(r[1] == e.row@[1]@ && r[4] == e.row@[4]@ && r[5] == e.row@[5]@);
    let now = i32_field(&e.row[4]);
    let max = i32_field(&e.row[5]);
    if e.row[1].as_str().is_empty() {
        push_public_favourite(s, e, now, max);
        false
    } else {
        push_guest_favourite(s, e, see_hidden, username, now, max);
        true
    }
}

/// The favourites packet (see `favourites_spec`).
pub fn favourites_packet(es: &Vec<FavouriteRow>, see_hidden: bool, username: &str) -> (r: Option<String>)
    requires
        es@.len() < 0x8000_0000,
        forall|i: int| 0 <= i < es@.len() ==> favourite_fits(#[trigger] es@[i]),
    ensures
        match favourites_spec(es@, see_hidden, username@) {
            Some(t) => r matches Some(p) && p@ == t,
            None => r is None,
        },
{
    let n = es.len();
    if n == 0 {
        return None;
    }
    let mut guests: i32 = 0;
    let mut gone: i32 = 0;
    let mut lines = String::new();
    let mut i: usize = 0;
    while i < n
        invariant
            n == es@.len(),
            n < 0x8000_0000,
            i <= n,
            forall|j: int| 0 <= j < es@.len() ==> favourite_fits(#[trigger] es@[j]),
            favourites_fold(es@.take(i as int), see_hidden, username@) == (guests as int, gone as int, lines@),
            0 <= guests <= i,
            0 <= gone <= i,
        decreases n - i,
    {
        let ghost prev = es@.take(i as int);
        assert(es@.take(i + 1).drop_last() =~= prev);
        assert(es@.take(i + 1).last() == es@[i as int]);
        let e = &es[i];
        assert(favourite_fits(es@[i as int]));
        if e.row.len() == 0 {
            if guests > 0 {
                gone = gone + 1;
            }
        } else if e.row.len() >= 7 {
            if push_favourite_line(&mut lines, e, see_hidden, username) {
                guests = guests + 1;
            }
        }
        i += 1;
    }
    assert(es@.take(n as int) =~= es@);
    let mut s = owned("@}HHJ\u{2}HHH");
    push_vl64(&mut s, guests - gone);
    push_str(&mut s, lines.as_str());
    Some(s)
}

// ---------------------------------------------------------------- room details

/// The details of a guest room from its row `name, owner, description,
/// model, state, superusers, showname, category, visitors_now,
/// visitors_max`: `@v`, super users, door state, the room, the owner (`-`
/// when the room hides it and the viewer may see all owners, as it always
/// did), the model, name and description, whether names show, whether the
/// category allows trading (`I` or `H`), and the visitors; nothing for a
/// short row.
pub open spec fn room_details_spec(room_id: i64, r: Seq<Seq<char>>, see_owners: bool, trading: bool) -> Option<Seq<char>> {
    if r.len() < 10 {
        None
    } else {
        Some(details_head(room_id, r, see_owners) + details_tail(r, trading))
    }
}

/// The first part of a room's details: up to the owner.
pub open spec fn details_head(room_id: i64, r: Seq<Seq<char>>, see_owners: bool) -> Seq<char> {
    "@v"@ + vl64_text(i32_or(r[5], 0)) + vl64_text(i32_or(r[4], 0)) + vl(room_id as int) + (if r[6] == "0"@
        && see_owners {
        "-"@
    } else {
        r[1]
    })
}

/// The rest of a room's details: model, name, description, whether names
/// show, trading and visitors.
pub open spec fn details_tail(r: Seq<Seq<char>>, trading: bool) -> Seq<char> {
    "\u{2}model_"@ + r[3] + seq!['\u{2}'] + r[0] + seq!['\u{2}'] + r[2] + seq!['\u{2}'] + vl64_text(i32_or(r[6], 0))
        + (if trading { seq!['I'] } else { seq!['H'] }) + vl64_text(i32_or(r[8], 0)) + vl64_text(i32_or(r[9], 0))
}

/// The numbers of a room's details can be written.
pub open spec fn room_details_fit(room_id: i64, r: Seq<Seq<char>>) -> bool {
    r.len() >= 10 ==> {
        &&& vl_ok(room_id as int)
        &&& i32_or(r[5], 0) != i32::MIN as int
        &&& i32_or(r[4], 0) != i32::MIN as int
        &&& i32_or(r[6], 0) != i32::MIN as int
        &&& i32_or(r[8], 0) != i32::MIN as int
        &&& i32_or(r[9], 0) != i32::MIN as int
    }
}

/// The details of a guest room (see `room_details_spec`).
fn push_details_head(s: &mut String, room_id: i64, row: &[String], see_owners: bool)
    requires
        row@.len() >= 10,
        room_details_fit(room_id, strings_view(row@)),
    ensures
        final(s)@ == old(s)@ + details_head(room_id, strings_view(row@), see_owners),
{
    let ghost rv = strings_view(row@);
    let ghost before = s@;
    assert(rv[1] == row@[1]@ && rv[4] == row@[4]@ && rv[5] == row@[5]@ && rv[6] == row@[6]@);
    push_str(s, "@v");
    push_vl64(s, i32_field(&row[5]));
    push_vl64(s, i32_field(&row[4]));
    push_vl(s, room_id);
    if str_eq(row[6].as_str(), "0") && see_owners {
        push_str(s, "-");
    } else {
        push_str(s, row[1].as_str());
    }
    assert(s@ =~= before + details_head(room_id, rv, see_owners));
}

fn push_details_tail(s: &mut String, row: &[String], trading: bool)
    requires
        row@.len() >= 10,
        room_details_fit(0, strings_view(row@)),
    ensures
        final(s)@ == old(s)@ + details_tail(strings_view(row@), trading),
{
    let ghost rv = strings_view(row@);
    let ghost before = s@;
    assert(rv[0] == row@[0]@ && rv[2] == row@[2]@ && rv[3] == row@[3]@ && rv[6] == row@[6]@ && rv[8] == row@[8]@
        && rv[9] == row@[9]@);
    push_str(s, "\u{2}model_");
    push_str(s, row[3].as_str());
    push_char(s, '\u{2}');
    push_str(s, row[0].as_str());
    push_char(s, '\u{2}');
    push_str(s, row[2].as_str());
    push_char(s, '\u{2}');
    push_vl64(s, i32_field(&row[6]));
    push_char(s, if trading { 'I' } else { 'H' });
    push_vl64(s, i32_field(&row[8]));
    push_vl64(s, i32_field(&row[9]));
    assert(s@ =~= before + details_tail(rv, trading));
}

/// The details of a guest room (see `room_details_spec`).
pub fn room_details_packet(room_id: i64, row: &[String], see_owners: bool, trading: bool) -> (r: Option<String>)
    requires
        room_details_fit(room_id, strings_view(row@)),
    ensures
        match room_details_spec(room_id, strings_view(row@), see_owners, trading) {
            Some(t) => r matches Some(p) && p@ == t,
            None => r is None,
        },
{
    if row.len() < 10 {
        return None;
    }
    let mut s = String::new();
    push_details_head(&mut s, room_id, row, see_owners);
    push_details_tail(&mut s, row, trading);
    proof {
        assert(s@ =~= details_head(room_id, strings_view(row@), see_owners) + details_tail(strings_view(row@), trading));
    }
    Some(s)
}

// ---------------------------------------------------------------- searches and own rooms

/// A row of a room search: `name, owner, description, state, showname,
/// visitors_now, visitors_max`, with its room id.
#[derive(Debug, Clone)]
pub struct SearchRow {
    pub id: i64,
    pub row: Vec<String>,
}

/// The line of a found room, tab-separated: id, name, owner (`-` when the
/// room hides it from others and the viewer may not see all owners), door
/// state, `x`, visitors, `null` and description.
pub open spec fn search_line(e: SearchRow, see_all: bool, username: Seq<char>) -> Seq<char> {
    let r = strings_view(e.row@);
    if r.len() < 7 {
        Seq::empty()
    } else {
        search_head(e.id, r, see_all, username) + search_tail(r)
    }
}

/// The start of a found room's line: id, name and owner.
pub open spec fn search_head(id: i64, r: Seq<Seq<char>>, see_all: bool, username: Seq<char>) -> Seq<char> {
    int_text(id as int) + seq!['\t'] + r[0] + seq!['\t'] + (if r[4] == "0"@ && r[1] != username && !see_all {
        "-"@
    } else {
        r[1]
    })
}

/// The rest of a found room's line: door state, visitors and description.
pub open spec fn search_tail(r: Seq<Seq<char>>) -> Seq<char> {
    seq!['\t'] + door_state_name(i32_or(r[3], 0)) + "\tx\t"@ + r[5] + seq!['\t'] + r[6] + "\tnull\t"@ + r[2] + seq![
        '\t',
        '\r',
    ]
}

/// The lines of the found rooms, in order.
pub open spec fn search_lines(es: Seq<SearchRow>, see_all: bool, username: Seq<char>) -> Seq<char>
    decreases es.len(),
{
    if es.len() == 0 {
        Seq::empty()
    } else {
        search_lines(es.drop_last(), see_all, username) + search_line(es.last(), see_all, username)
    }
}

/// The answer to a room search: `@z` when nothing was found, else `@w` and
/// the lines.
pub open spec fn search_packet_spec(es: Seq<SearchRow>, see_all: bool, username: Seq<char>) -> Seq<char> {
    if es.len() == 0 {
        "@z"@
    } else {
        "@w"@ + search_lines(es, see_all, username)
    }
}

fn push_search_head(s: &mut String, id: i64, row: &Vec<String>, see_all: bool, username: &str)
    requires
        row@.len() >= 7,
    ensures
        final(s)@ == old(s)@ + search_head(id, strings_view(row@), see_all, username@),
{
    let ghost r = strings_view(row@);
    let ghost before = s@;
    assert(r[0] == row@[0]@ && r[1] == row@[1]@ && r[4] == row@[4]@);
    push_i64(s, id);
    push_char(s, '\t');
    push_str(s, row[0].as_str());
    push_char(s, '\t');
    if str_eq(row[4].as_str(), "0") && !str_eq(row[1].as_str(), username) && !see_all {
        push_str(s, "-");
    } else {
        push_str(s, row[1].as_str());
    }
    assert(s@ =~= before + search_head(id, r, see_all, username@));
}

fn push_search_tail(s: &mut String, row: &Vec<String>)
    requires
        row@.len() >= 7,
    ensures
        final(s)@ == old(s)@ + search_tail(strings_view(row@)),
{
    let ghost r = strings_view(row@);
    let ghost before = s@;
    assert(r[2] == row@[2]@ && r[3] == row@[3]@ && r[5] == row@[5]@ && r[6] == row@[6]@);
    push_char(s, '\t');
    push_str(s, room_state_name(i32_field(&row[3])));
    push_str(s, "\tx\t");
    push_str(s, row[5].as_str());
    push_char(s, '\t');
    push_str(s, row[6].as_str());
    push_str(s, "\tnull\t");
    push_str(s, row[2].as_str());
    push_char(s, '\t');
    push_char(s, '\r');
    assert(s@ =~= before + search_tail(r));
}

fn push_search_line(s: &mut String, e: &SearchRow, see_all: bool, username: &str)
    ensures
        final(s)@ == old(s)@ + search_line(*e, see_all, username@),
{
    if e.row.len() < 7 {
        return;
    }
    let ghost before = s@;
    push_search_head(s, e.id, &e.row, see_all, username);
    push_search_tail(s, &e.row);
    assert(s@ =~= before + search_line(*e, see_all, username@));
}

/// The answer to a room search (see `search_packet_spec`).
pub fn search_packet(es: &Vec<SearchRow>, see_all: bool, username: &str) -> (r: String)
    ensures
        r@ == search_packet_spec(es@, see_all, username@),
{
    if es.len() == 0 {
        return owned("@z");
    }
    let mut s = owned("@w");
    let ghost head = s@;
    let n = es.len();
    let mut i: usize = 0;
    while i < n
        invariant
            n == es@.len(),
            i <= n,
            s@ == head + search_lines(es@.take(i as int), see_all, username@),
        decreases n - i,
    {
        push_search_line(&mut s, &es[i], see_all, username);
        assert(es@.take(i + 1).drop_last() =~= es@.take(i as int));
        i += 1;
    }
    assert(es@.take(n as int) =~= es@);
    s
}

/// The line of one of the user's own rooms from its row `name,
/// description, state, showname, visitors_now, visitors_max`: id, name,
/// the user, door state, `x`, visitors, `null` and the description twice.
pub open spec fn own_room_line(e: SearchRow, username: Seq<char>) -> Seq<char> {
    let r = strings_view(e.row@);
    if r.len() < 6 {
        Seq::empty()
    } else {
        int_text(e.id as int) + seq!['\t'] + r[0] + seq!['\t'] + username + seq!['\t'] + door_state_name(
            i32_or(r[2], 0),
        ) + "\tx\t"@ + r[4] + seq!['\t'] + r[5] + "\tnull\t"@ + r[1] + seq!['\t'] + r[1] + seq!['\t', '\r']
    }
}

/// The lines of the user's own rooms, in order.
pub open spec fn own_room_lines(es: Seq<SearchRow>, username: Seq<char>) -> Seq<char>
    decreases es.len(),
{
    if es.len() == 0 {
        Seq::empty()
    } else {
        own_room_lines(es.drop_last(), username) + own_room_line(es.last(), username)
    }
}

/// The list of the user's own rooms: `@y` and the name when there are none,
/// else `@P` and the lines.
pub open spec fn own_rooms_spec(es: Seq<SearchRow>, username: Seq<char>) -> Seq<char> {
    if es.len() == 0 {
        "@y"@ + username
    } else {
        "@P"@ + own_room_lines(es, username)
    }
}

fn push_own_room_line(s: &mut String, e: &SearchRow, username: &str)
    ensures
        final(s)@ == old(s)@ + own_room_line(*e, username@),
{
    let ghost r = strings_view(e.row@);
    let ghost before = s@;
    let row = &e.row;
    if row.len() < 6 {
        return;
    }
    assert(forall|i: int| 0 <= i < 6 ==> r[i] == row@[i]@);
    push_i64(s, e.id);
    push_char(s, '\t');
    push_str(s, row[0].as_str());
    push_char(s, '\t');
    push_str(s, username);
    push_char(s, '\t');
    push_str(s, room_state_name(i32_field(&row[2])));
    push_str(s, "\tx\t");
    push_str(s, row[4].as_str());
    push_char(s, '\t');
    push_str(s, row[5].as_str());
    push_str(s, "\tnull\t");
    push_str(s, row[1].as_str());
    push_char(s, '\t');
    push_str(s, row[1].as_str());
    push_char(s, '\t');
    push_char(s, '\r');
    assert(s@ =~= before + own_room_line(*e, username@));
}

/// The list of the user's own rooms (see `own_rooms_spec`).
pub fn own_rooms_packet(es: &Vec<SearchRow>, username: &str) -> (r: String)
    ensures
        r@ == own_rooms_spec(es@, username@),
{
    if es.len() == 0 {
        let mut s = owned("@y");
        push_str(&mut s, username);
        return s;
    }
    let mut s = owned("@P");
    let ghost head = s@;
    let n = es.len();
    let mut i: usize = 0;
    while i < n
        invariant
            n == es@.len(),
            i <= n,
            s@ == head + own_room_lines(es@.take(i as int), username@),
        decreases n - i,
    {
        push_own_room_line(&mut s, &es[i], username);
        assert(es@.take(i + 1).drop_last() =~= es@.take(i as int));
        i += 1;
    }
    assert(es@.take(n as int) =~= es@);
    s
}

// ---------------------------------------------------------------- categories for a new room

/// The categories a new room may be put in: each id and name followed by
/// `\u{2}`; a missing name counts as empty.
pub open spec fn placement_lines(ids: Seq<i64>, names: Seq<Seq<char>>) -> Seq<char>
    decreases ids.len(),
{
    if ids.len() == 0 {
        Seq::empty()
    } else {
        let k = ids.len() - 1;
        placement_lines(ids.drop_last(), names) + vl(ids.last() as int) + (if k < names.len() {
            names[k]
        } else {
            Seq::empty()
        }) + seq!['\u{2}']
    }
}

/// The categories a new room may be put in: `C]`, their number and the
/// lines.
pub fn placement_categories_packet(ids: &Vec<i64>, names: &Vec<String>) -> (r: String)
    requires
        vl_ok(ids@.len() as int),
        forall|i: int| 0 <= i < ids@.len() ==> vl_ok(#[trigger] ids@[i] as int),
    ensures
        r@ == "C]"@ + vl(ids@.len() as int) + placement_lines(ids@, strings_view(names@)),
{
    let mut s = owned("C]");
    push_vl64(&mut s, trunc_usize(ids.len()));
    let ghost head = s@;
    let ghost nv = strings_view(names@);
    let n = ids.len();
    let mut i: usize = 0;
    while i < n
        invariant
            n == ids@.len(),
            nv == strings_view(names@),
            i <= n,
            forall|j: int| 0 <= j < ids@.len() ==> vl_ok(#[trigger] ids@[j] as int),
            s@ == head + placement_lines(ids@.take(i as int), nv),
        decreases n - i,
    {
        assert(vl_ok(ids@[i as int] as int));
        push_vl(&mut s, ids[i]);
        if i < names.len() {
            push_str(&mut s, names[i].as_str());
            assert(nv[i as int] == names@[i as int]@);
        }
        push_char(&mut s, '\u{2}');
        assert(ids@.take(i + 1).drop_last() =~= ids@.take(i as int));
        i += 1;
    }
    assert(ids@.take(n as int) =~= ids@);
    s
}

} // verus!
