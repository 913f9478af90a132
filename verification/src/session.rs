//! Decisions of a client session that stand apart from its I/O: login
//! ticket addresses, badge slots, speech commands, swimming outfits, game
//! tickets, teleporters and room state.
use vstd::prelude::*;
use vstd::utf8::{decode_utf8, encode_utf8, is_char_boundary};
use vstd::string::StringSliceAdditionalSpecFns;

use crate::bots::{ascii_lower, ascii_lower_text, lower_char};
use crate::codec::{b64_decode_bytes, b64_decode_spec, lemma_b64_two_fits};
use crate::strings::{escape_spec, stripslash, strings_view};
use crate::text::{parse_int_spec, char_is_ws, is_ws, push_i64, push_str, str_eq, to_chars, string_of, int_text};

verus! {

broadcast use vstd::utf8::encode_utf8_valid_utf8, vstd::utf8::encode_utf8_decode_utf8;

/// The text equals `localhost` when ASCII letters are compared without
/// regard to case.
pub open spec fn is_localhost_text(s: Seq<char>) -> bool {
    ascii_lower_text(s) == "localhost"@
}

/// `s.eq_ignore_ascii_case("localhost")`.
fn is_localhost(s: &str) -> (r: bool)
    ensures
        r == is_localhost_text(s@),
{
    let cs = to_chars(s);
    let target = to_chars("localhost");
    proof {
        reveal_strlit("localhost");
    }
    if cs.len() != target.len() {
        assert(ascii_lower_text(s@).len() != "localhost"@.len());
        return false;
    }
    let mut i: usize = 0;
    while i < cs.len()
        invariant
            cs@ == s@,
            target@ == "localhost"@,
            cs@.len() == target@.len(),
            i <= cs@.len(),
            forall|j: int| 0 <= j < i ==> ascii_lower(#[trigger] cs@[j]) == target@[j],
        decreases cs@.len() - i,
    {
        if lower_char(cs[i]) != target[i] {
            assert(ascii_lower_text(s@)[i as int] != "localhost"@[i as int]);
            return false;
        }
        i += 1;
    }
    assert(ascii_lower_text(s@) =~= "localhost"@);
    true
}

/// Whether the address a login ticket was issued for matches the address
/// of the connection: the same text, or both loopback (a loopback IP
/// address or the name `localhost`). Whether each text parses as a loopback
/// IP address is read by the caller, from the standard library's address
/// parser.
pub fn ip_matches_legacy_ticket_ip(
    expected_ip: &str,
    actual_ip: &str,
    expected_is_loopback_ip: bool,
    actual_is_loopback_ip: bool,
) -> (r: bool)
    ensures
        r == (expected_ip@ == actual_ip@ || ((expected_is_loopback_ip || is_localhost_text(expected_ip@))
            && (actual_is_loopback_ip || is_localhost_text(actual_ip@)))),
{
    if str_eq(expected_ip, actual_ip) {
        return true;
    }
    let expected_loopback = expected_is_loopback_ip || is_localhost(expected_ip);
    let actual_loopback = actual_is_loopback_ip || is_localhost(actual_ip);
    expected_loopback && actual_loopback
}

/// The slot that badge `i` goes to: its slot id, or 0 where there is none.
pub open spec fn slot_at(slots: Seq<i64>, i: int) -> int {
    if i < slots.len() {
        slots[i] as int
    } else {
        0
    }
}

/// The five badge slots after the first badges were placed: a badge with
/// slot id 1 to 5 goes to that slot, a later one replacing an earlier one;
/// other badges are left out.
pub open spec fn badge_slots(badges: Seq<Seq<char>>, slots: Seq<i64>) -> Seq<Seq<char>>
    decreases badges.len(),
{
    if badges.len() == 0 {
        Seq::new(5, |k: int| Seq::<char>::empty())
    } else {
        let prev = badge_slots(badges.drop_last(), slots);
        let s = slot_at(slots, badges.len() - 1);
        if 1 <= s <= 5 {
            prev.update(s - 1, badges.last())
        } else {
            prev
        }
    }
}

proof fn lemma_badge_slots_len(badges: Seq<Seq<char>>, slots: Seq<i64>)
    ensures
        badge_slots(badges, slots).len() == 5,
    decreases badges.len(),
{
    if badges.len() > 0 {
        lemma_badge_slots_len(badges.drop_last(), slots);
    }
}

/// Places the enabled badges into the five current-badge slots by their
/// slot ids (see `badge_slots`).
pub fn collect_current_badges(badges: &[String], slot_ids: &[i64]) -> (r: [String; 5])
    requires
        forall|i: int| 0 <= i < badges@.len() && i < slot_ids@.len() ==> slot_ids@[i] != i64::MIN,
    ensures
        forall|k: int| 0 <= k < 5 ==> #[trigger] r@[k]@ == badge_slots(strings_view(badges@), slot_ids@)[k],
{
    let mut current: [String; 5] = [String::new(), String::new(), String::new(), String::new(), String::new()];
    let ghost all = strings_view(badges@);
    let mut i: usize = 0;
    assert(all.take(0) =~= Seq::<Seq<char>>::empty());
    while i < badges.len()
        invariant
            all == strings_view(badges@),
            i <= badges@.len(),
            forall|j: int| 0 <= j < badges@.len() && j < slot_ids@.len() ==> slot_ids@[j] != i64::MIN,
            forall|k: int| 0 <= k < 5 ==> #[trigger] current@[k]@ == badge_slots(all.take(i as int), slot_ids@)[k],
        decreases badges@.len() - i,
    {
        let ghost prev = all.take(i as int);
        let ghost next = all.take(i + 1);
        assert(next.drop_last() =~= prev);
        assert(next.last() == badges@[i as int]@);
        proof {
            lemma_badge_slots_len(prev, slot_ids@);
        }
        let slot_id: i64 = if i < slot_ids.len() { slot_ids[i] } else { 0 };
        assert(slot_id == slot_at(slot_ids@, i as int));
        let shifted = slot_id - 1;
        if slot_id > 0 && shifted < 5 {
            let idx = shifted as usize;
            current[idx] = badges[i].clone();
        }
        i += 1;
    }
    assert(all.take(badges@.len() as int) =~= all);
    current
}

/// The first whitespace-separated word of a text, if it has one.
pub open spec fn first_word(s: Seq<char>) -> Option<Seq<char>> {
    let t = crate::text::trim_start_spec(s);
    if t.len() == 0 {
        None
    } else {
        Some(word_prefix(t))
    }
}

/// The characters of `s` up to its first whitespace.
pub open spec fn word_prefix(s: Seq<char>) -> Seq<char>
    decreases s.len(),
{
    if s.len() == 0 || is_ws(s[0]) {
        Seq::empty()
    } else {
        seq![s[0]] + word_prefix(s.drop_first())
    }
}

/// The name of a speech command: the first word of what was said.
pub fn speech_command_name(text: &str) -> (r: Option<String>)
    ensures
        r is None <==> first_word(text@) is None,
        r matches Some(w) ==> first_word(text@) == Some(w@),
{
    let cs = to_chars(text);
    let n = cs.len();
    let mut a: usize = 0;
    assert(cs@.subrange(0, n as int) =~= cs@);
    while a < n && char_is_ws(cs[a])
        invariant
            cs@ == text@,
            n == cs@.len(),
            a <= n,
            crate::text::trim_start_spec(cs@) == crate::text::trim_start_spec(cs@.subrange(a as int, n as int)),
        decreases n - a,
    {
        assert(cs@.subrange(a as int, n as int).drop_first() =~= cs@.subrange(a + 1, n as int));
        a += 1;
    }
    let ghost t = cs@.subrange(a as int, n as int);
    assert(crate::text::trim_start_spec(t) == t);
    if a == n {
        return None;
    }
    let mut b = a;
    assert(t.subrange(0, 0) =~= Seq::<char>::empty());
    while b < n && !char_is_ws(cs[b])
        invariant
            cs@ == text@,
            n == cs@.len(),
            a <= b <= n,
            t == cs@.subrange(a as int, n as int),
            forall|j: int| a <= j < b ==> !is_ws(#[trigger] cs@[j]),
            word_prefix(t) == cs@.subrange(a as int, b as int) + word_prefix(cs@.subrange(b as int, n as int)),
        decreases n - b,
    {
        let ghost rest = cs@.subrange(b as int, n as int);
        assert(rest.drop_first() =~= cs@.subrange(b + 1, n as int));
        assert(cs@.subrange(a as int, b + 1) =~= cs@.subrange(a as int, b as int) + seq![cs@[b as int]]);
        b += 1;
    }
    let ghost rest = cs@.subrange(b as int, n as int);
    assert(word_prefix(rest) =~= Seq::<char>::empty());
    let mut w: Vec<char> = Vec::new();
    let mut i = a;
    while i < b
        invariant
            a <= i <= b <= n == cs@.len(),
            w@ =~= cs@.subrange(a as int, i as int),
        decreases b - i,
    {
        w.push(cs[i]);
        assert(cs@.subrange(a as int, i + 1) =~= cs@.subrange(a as int, i as int).push(cs@[i as int]));
        i += 1;
    }
    assert(word_prefix(t) =~= w@);
    Some(string_of(w.as_slice()))
}

/// The speech commands that the hotel knows.
pub open spec fn is_known_command(name: Seq<char>) -> bool {
    name == "emptyhand"@ || name == "alert"@ || name == "roomalert"@ || name == "kick"@ || name
        == "roomkick"@ || name == "shutup"@ || name == "unmute"@ || name == "roomshutup"@ || name
        == "roomunmute"@ || name == "ban"@ || name == "superban"@ || name == "info"@ || name
        == "find"@ || name == "teleport"@ || name == "warp"@ || name == "teletome"@ || name
        == "givebadge"@ || name == "offline"@ || name == "position"@ || name == "ha"@ || name
        == "ra"@ || name == "refreshrooms"@ || name == "refreshhotel"@ || name
        == "refreshcatalogue"@ || name == "coins"@ || name == "commands"@
}

/// Whether `name` is one of the known speech commands.
pub fn is_known_speech_command_name(name: &str) -> (r: bool)
    ensures
        r == is_known_command(name@),
{
    str_eq(name, "emptyhand") || str_eq(name, "alert") || str_eq(name, "roomalert") || str_eq(
        name,
        "kick",
    ) || str_eq(name, "roomkick") || str_eq(name, "shutup") || str_eq(name, "unmute") || str_eq(
        name,
        "roomshutup",
    ) || str_eq(name, "roomunmute") || str_eq(name, "ban") || str_eq(name, "superban") || str_eq(
        name,
        "info",
    ) || str_eq(name, "find") || str_eq(name, "teleport") || str_eq(name, "warp") || str_eq(
        name,
        "teletome",
    ) || str_eq(name, "givebadge") || str_eq(name, "offline") || str_eq(name, "position")
        || str_eq(name, "ha") || str_eq(name, "ra") || str_eq(name, "refreshrooms") || str_eq(
        name,
        "refreshhotel",
    ) || str_eq(name, "refreshcatalogue") || str_eq(name, "coins") || str_eq(name, "commands")
}

/// What follows the first two bytes of a text (its header), or nothing
/// when those bytes do not end on a character.
pub open spec fn after_header(s: Seq<char>) -> Seq<char> {
    let b = encode_utf8(s);
    if is_char_boundary(b, 2) {
        decode_utf8(b.subrange(2, b.len() as int))
    } else {
        Seq::empty()
    }
}

/// The text after a packet's two-byte header, or nothing when the header
/// does not end on a character (`packet.get(2..)`).
pub fn packet_body(packet: &str) -> (r: &str)
    ensures
        r@ == after_header(packet@),
{
    if packet.is_char_boundary(2) {
        let (_head, rest) = packet.split_at(2);
        proof {
            vstd::utf8::encode_utf8_decode_utf8(rest@);
        }
        assert(rest.spec_bytes() == encode_utf8(packet@).subrange(2, encode_utf8(packet@).len() as int));
        rest
    } else {
        proof {
            reveal_strlit("");
        }
        ""
    }
}

/// The swimming outfit chosen in a packet: its body, escaped for storage.
/// An empty body puts the normal clothes back.
pub fn parse_swim_outfit_selection(packet: &str) -> (r: String)
    ensures
        r@ == escape_spec(after_header(packet@)),
{
    let body = packet_body(packet);
    proof {
        reveal_strlit("");
    }
    stripslash(body)
}

/// The two game ticket offers the client shows, by the amount chosen: the
/// tickets given and their price in credits.
pub fn game_ticket_offer(amount: i32) -> (r: Option<(i64, i64)>)
    ensures
        r == (if amount == 1 {
            Some((2i64, 1i64))
        } else if amount == 2 {
            Some((20i64, 6i64))
        } else {
            None
        }),
{
    if amount == 1 {
        Some((2, 1))
    } else if amount == 2 {
        Some((20, 6))
    } else {
        None
    }
}

/// The sprites of furniture that works as a teleporter.
pub open spec fn is_teleporter_sprite(s: Seq<char>) -> bool {
    s == "door"@ || s == "doorB"@ || s == "doorC"@ || s == "doorD"@ || s == "teleport_door"@ || s
        == "xmas08_telep"@ || s == "ads_cltele"@
}

/// Whether a sprite is one of the teleporter sprites.
pub fn is_legacy_teleporter_sprite(sprite: &str) -> (r: bool)
    ensures
        r == is_teleporter_sprite(sprite@),
{
    str_eq(sprite, "door") || str_eq(sprite, "doorB") || str_eq(sprite, "doorC") || str_eq(
        sprite,
        "doorD",
    ) || str_eq(sprite, "teleport_door") || str_eq(sprite, "xmas08_telep") || str_eq(
        sprite,
        "ads_cltele",
    )
}

/// Whether a user stands on the teleporter's own tile.
pub fn is_user_on_teleporter(user_x: i32, user_y: i32, teleporter_x: i32, teleporter_y: i32) -> (r: bool)
    ensures
        r == (user_x == teleporter_x && user_y == teleporter_y),
{
    user_x == teleporter_x && user_y == teleporter_y
}

/// Whether a user stands on the tile in front of a teleporter: east of it
/// when it faces 2, south of it when it faces 4, nowhere otherwise.
pub fn is_user_at_teleporter_entrance(
    user_x: i32,
    user_y: i32,
    teleporter_x: i32,
    teleporter_y: i32,
    teleporter_z: u8,
) -> (r: bool)
    ensures
        r == (if teleporter_z == 2 {
            user_x == teleporter_x + 1 && user_y == teleporter_y
        } else if teleporter_z == 4 {
            user_x == teleporter_x && user_y == teleporter_y + 1
        } else {
            false
        }),
{
    if teleporter_z == 2 {
        user_x as i64 == teleporter_x as i64 + 1 && user_y == teleporter_y
    } else if teleporter_z == 4 {
        user_x == teleporter_x && user_y as i64 == teleporter_y as i64 + 1
    } else {
        false
    }
}

/// The packet that shows a user arriving through a teleporter:
/// `A\<id>/<username>/<sprite>`.
pub fn format_teleporter_arrival_packet(teleporter_id: i64, username: &str, sprite: &str) -> (r: String)
    ensures
        r@ == seq!['A', '\\'] + int_text(teleporter_id as int) + seq!['/'] + username@ + seq!['/']
            + sprite@,
{
    let mut s = String::new();
    crate::text::push_char(&mut s, 'A');
    crate::text::push_char(&mut s, '\\');
    push_i64(&mut s, teleporter_id);
    crate::text::push_char(&mut s, '/');
    push_str(&mut s, username);
    crate::text::push_char(&mut s, '/');
    push_str(&mut s, sprite);
    assert(s@ =~= seq!['A', '\\'] + int_text(teleporter_id as int) + seq!['/'] + username@ + seq!['/']
        + sprite@);
    s
}

/// Whether a session holds any state of a room: a room id, a room instance,
/// or any of the room flags.
pub fn has_local_room_state_for_test(
    current_room_id: i64,
    current_room_uid: Option<i64>,
    current_room_is_public: bool,
    room_access_primary_ok: bool,
    room_access_secondary_ok: bool,
    is_owner: bool,
    has_rights: bool,
) -> (r: bool)
    ensures
        r == (current_room_id > 0 || current_room_uid is Some || current_room_is_public
            || room_access_primary_ok || room_access_secondary_ok || is_owner || has_rights),
{
    current_room_id > 0 || current_room_uid.is_some() || current_room_is_public
        || room_access_primary_ok || room_access_secondary_ok || is_owner || has_rights
}

/// Whether a session's room state must be cleared: it is attached to a room
/// instance while the user, as the hotel sees it, is in no room.
pub fn should_reconcile_room_state(
    current_room_uid: Option<i64>,
    user_in_room: bool,
    user_room_id: i64,
) -> (r: bool)
    ensures
        r == (current_room_uid is Some && !user_in_room && user_room_id <= 0),
{
    current_room_uid.is_some() && !user_in_room && user_room_id <= 0
}

/// The length of a badge name that a packet announces: the B64 number in
/// its first two bytes, or 0 when they are not B64.
pub fn _decode_badge_name_length(data: &str) -> (r: usize)
    requires
        is_char_boundary(data.spec_bytes(), 2),
    ensures
        r == (match b64_decode_spec(data.spec_bytes().subrange(0, 2)) {
            Ok(v) => v as usize,
            Err(_) => 0usize,
        }),
{
    let bytes = data.as_bytes();
    proof {
        vstd::utf8::is_char_boundary_start_end_of_seq(data.spec_bytes());
    }
    assert(bytes@.len() >= 2) by {
        if bytes@.len() < 2 {
            assert(!is_char_boundary(data.spec_bytes(), 2));
        }
    }
    let mut head: Vec<u8> = Vec::new();
    head.push(bytes[0]);
    head.push(bytes[1]);
    assert(head@ =~= data.spec_bytes().subrange(0, 2));
    proof {
        lemma_b64_two_fits(head@);
    }
    match b64_decode_bytes(head.as_slice()) {
        Ok(v) => v,
        Err(_) => 0,
    }
}

// ---------------------------------------------------------------- packets

/// What the first `n` bytes of a text leave, or nothing when they do not
/// end on a character (`text.get(n..)`).
pub open spec fn text_after_spec(s: Seq<char>, n: int) -> Seq<char> {
    let b = encode_utf8(s);
    if is_char_boundary(b, n) {
        decode_utf8(b.subrange(n, b.len() as int))
    } else {
        Seq::empty()
    }
}

/// The text after its first `n` bytes, or the empty text when they do not
/// end on a character.
pub fn text_after(text: &str, n: usize) -> (r: &str)
    ensures
        r@ == text_after_spec(text@, n as int),
{
    if text.is_char_boundary(n) {
        let (_head, rest) = text.split_at(n);
        proof {
            vstd::utf8::encode_utf8_decode_utf8(rest@);
        }
        assert(rest.spec_bytes() == encode_utf8(text@).subrange(n as int, encode_utf8(text@).len() as int));
        rest
    } else {
        proof {
            reveal_strlit("");
        }
        ""
    }
}

/// The header of a packet: its first two bytes, when it has them.
pub open spec fn packet_header_spec(s: Seq<char>) -> Option<Seq<char>> {
    let b = encode_utf8(s);
    if b.len() < 2 {
        None
    } else {
        Some(decode_utf8(b.subrange(0, 2)))
    }
}

/// The header of a packet (`None` for a packet shorter than two bytes,
/// which ends the session).
pub fn packet_header(packet: &str) -> (r: Option<String>)
    requires
        encode_utf8(packet@).len() >= 2 ==> is_char_boundary(encode_utf8(packet@), 2),
    ensures
        r is None <==> packet_header_spec(packet@) is None,
        r matches Some(h) ==> packet_header_spec(packet@) == Some(h@),
{
    if !packet.is_char_boundary(2) {
        proof {
            vstd::utf8::is_char_boundary_start_end_of_seq(encode_utf8(packet@));
        }
        return None;
    }
    let (head, _rest) = packet.split_at(2);
    proof {
        vstd::utf8::encode_utf8_decode_utf8(head@);
    }
    Some(crate::text::owned(head))
}

/// What a session does with a packet before its user has logged in.
#[derive(Debug, Clone, PartialEq, Eq)]
pub enum PreLoginAction {
    /// Nothing: the client is checking the connection.
    KeepAlive,
    /// Answer with this packet.
    Reply(String),
    /// Log the user in with the ticket in the packet.
    Login,
    /// End the session.
    Disconnect,
}

/// The handshake that answers `_R`.
pub open spec fn login_handshake() -> Seq<char> {
    "DAQBHIIIKHJIPAIQAdd-MM-yyyy\u{2}SAHPB/client\u{2}QBHIJWVVVSNKQCFUBJASMSLKUUOJCOLJQPNSBIRSVQBRXZQOTGPMNJIHLVJCRRULBLUO"@
}

/// The session data that answers `CJ`.
pub open spec fn session_params() -> Seq<char> {
    "DAQBHHIIKHJIPAHQAdd-MM-yyyy\u{2}SAHPBhotel-co.uk\u{2}QBH"@
}

/// The action for a header before login: `CD` keeps the connection,
/// `CN`, `CJ` and `_R` are answered, `CL` logs in, anything else ends the
/// session.
pub open spec fn pre_login_spec(header: Seq<char>, a: PreLoginAction) -> bool {
    if header == "CD"@ {
        a == PreLoginAction::KeepAlive
    } else if header == "CN"@ {
        a matches PreLoginAction::Reply(p) && p@ == "DUIH"@
    } else if header == "CJ"@ {
        a matches PreLoginAction::Reply(p) && p@ == session_params()
    } else if header == "_R"@ {
        a matches PreLoginAction::Reply(p) && p@ == login_handshake()
    } else if header == "CL"@ {
        a == PreLoginAction::Login
    } else {
        a == PreLoginAction::Disconnect
    }
}

/// What to do with a packet's header before login (see `pre_login_spec`).
pub fn pre_login_action(header: &str) -> (r: PreLoginAction)
    ensures
        pre_login_spec(header@, r),
{
    if str_eq(header, "CD") {
        PreLoginAction::KeepAlive
    } else if str_eq(header, "CN") {
        PreLoginAction::Reply(crate::text::owned("DUIH"))
    } else if str_eq(header, "CJ") {
        PreLoginAction::Reply(crate::text::owned("DAQBHHIIKHJIPAHQAdd-MM-yyyy\u{2}SAHPBhotel-co.uk\u{2}QBH"))
    } else if str_eq(header, "_R") {
        PreLoginAction::Reply(crate::text::owned("DAQBHIIIKHJIPAIQAdd-MM-yyyy\u{2}SAHPB/client\u{2}QBHIJWVVVSNKQCFUBJASMSLKUUOJCOLJQPNSBIRSVQBRXZQOTGPMNJIHLVJCRRULBLUO"))
    } else if str_eq(header, "CL") {
        PreLoginAction::Login
    } else {
        PreLoginAction::Disconnect
    }
}

// ---------------------------------------------------------------- speech commands

/// The whitespace-separated words of a text.
pub open spec fn words_spec(s: Seq<char>) -> Seq<Seq<char>>
    decreases s.len(),
{
    let t = crate::text::trim_start_spec(s);
    if t.len() == 0 {
        Seq::empty()
    } else {
        let w = word_prefix(t);
        proof {
            lemma_trim_start_len(s);
            lemma_word_prefix_len(t);
        }
        seq![w] + words_spec(t.subrange(w.len() as int, t.len() as int))
    }
}

pub proof fn lemma_trim_start_len(s: Seq<char>)
    ensures
        crate::text::trim_start_spec(s).len() <= s.len(),
        crate::text::trim_start_spec(s).len() > 0 ==> !is_ws(crate::text::trim_start_spec(s)[0]),
    decreases s.len(),
{
    if s.len() > 0 && is_ws(s[0]) {
        lemma_trim_start_len(s.drop_first());
    }
}

pub proof fn lemma_word_prefix_len(s: Seq<char>)
    ensures
        word_prefix(s).len() <= s.len(),
        s.len() > 0 && !is_ws(s[0]) ==> word_prefix(s).len() >= 1,
        word_prefix(s) == s.subrange(0, word_prefix(s).len() as int),
    decreases s.len(),
{
    if s.len() > 0 && !is_ws(s[0]) {
        lemma_word_prefix_len(s.drop_first());
        assert(word_prefix(s) =~= s.subrange(0, word_prefix(s).len() as int));
    }
}

/// The words of what was said, as `split_whitespace` gives them.
pub fn speech_words(text: &str) -> (r: Vec<String>)
    ensures
        strings_view(r@) == words_spec(text@),
{
    let cs = to_chars(text);
    let n = cs.len();
    let mut words: Vec<String> = Vec::new();
    let mut i: usize = 0;
    assert(cs@.subrange(0, n as int) =~= text@);
    while i < n
        invariant
            cs@ == text@,
            n == cs@.len(),
            i <= n,
            words_spec(text@) == strings_view(words@) + words_spec(cs@.subrange(i as int, n as int)),
        decreases n - i,
    {
        let ghost rest = cs@.subrange(i as int, n as int);
        if char_is_ws(cs[i]) {
            assert(crate::text::trim_start_spec(rest) == crate::text::trim_start_spec(cs@.subrange(i + 1, n as int))) by {
                assert(rest.drop_first() =~= cs@.subrange(i + 1, n as int));
            }
            proof {
                lemma_words_skip_ws(rest);
            }
            assert(rest.drop_first() =~= cs@.subrange(i + 1, n as int));
            i += 1;
        } else {
            let start = i;
            let mut j = i;
            while j < n && !char_is_ws(cs[j])
                invariant
                    cs@ == text@,
                    n == cs@.len(),
                    start <= j <= n,
                    forall|k: int| start <= k < j ==> !is_ws(#[trigger] cs@[k]),
                    word_prefix(cs@.subrange(start as int, n as int)) == cs@.subrange(start as int, j as int) + word_prefix(cs@.subrange(j as int, n as int)),
                decreases n - j,
            {
                assert(cs@.subrange(j as int, n as int).drop_first() =~= cs@.subrange(j + 1, n as int));
                assert(cs@.subrange(start as int, j + 1) =~= cs@.subrange(start as int, j as int) + seq![cs@[j as int]]);
                j += 1;
            }
            assert(word_prefix(cs@.subrange(j as int, n as int)) =~= Seq::<char>::empty());
            let mut w: Vec<char> = Vec::new();
            let mut k = start;
            while k < j
                invariant
                    start <= k <= j <= n == cs@.len(),
                    w@ =~= cs@.subrange(start as int, k as int),
                decreases j - k,
            {
                w.push(cs[k]);
                assert(cs@.subrange(start as int, k + 1) =~= cs@.subrange(start as int, k as int).push(cs@[k as int]));
                k += 1;
            }
            let ghost wv = w@;
            assert(crate::text::trim_start_spec(rest) == rest);
            proof {
                lemma_word_prefix_len(rest);
            }
            assert(word_prefix(rest) =~= wv);
            assert(rest.subrange(wv.len() as int, rest.len() as int) =~= cs@.subrange(j as int, n as int));
            let ghost before = strings_view(words@);
            words.push(string_of(w.as_slice()));
            assert(strings_view(words@) =~= before.push(wv));
            assert(words_spec(rest) =~= seq![wv] + words_spec(cs@.subrange(j as int, n as int)));
            assert(strings_view(words@) + words_spec(cs@.subrange(j as int, n as int)) =~= before + words_spec(rest));
            i = j;
        }
    }
    assert(words_spec(cs@.subrange(n as int, n as int)) =~= Seq::<Seq<char>>::empty());
    assert(strings_view(words@) + Seq::<Seq<char>>::empty() =~= strings_view(words@));
    words
}

/// Leading whitespace does not change the words.
proof fn lemma_words_skip_ws(s: Seq<char>)
    requires
        s.len() > 0,
        is_ws(s[0]),
    ensures
        words_spec(s) == words_spec(s.drop_first()),
{
    assert(crate::text::trim_start_spec(s) == crate::text::trim_start_spec(s.drop_first()));
}

/// The fuse right each speech command needs, where it needs one.
pub open spec fn command_right_spec(name: Seq<char>) -> Option<Seq<char>> {
    if name == "alert"@ || name == "ra"@ {
        Some("fuse_alert"@)
    } else if name == "roomalert"@ {
        Some("fuse_room_alert"@)
    } else if name == "kick"@ {
        Some("fuse_kick"@)
    } else if name == "roomkick"@ {
        Some("fuse_room_kick"@)
    } else if name == "shutup"@ || name == "unmute"@ {
        Some("fuse_mute"@)
    } else if name == "roomshutup"@ || name == "roomunmute"@ {
        Some("fuse_room_mute"@)
    } else if name == "ban"@ {
        Some("fuse_ban"@)
    } else if name == "superban"@ {
        Some("fuse_superban"@)
    } else if name == "info"@ || name == "find"@ || name == "teleport"@ || name == "warp"@ || name
        == "teletome"@ || name == "commands"@ {
        Some("fuse_moderator_access"@)
    } else if name == "offline"@ || name == "position"@ || name == "ha"@ || name == "refreshrooms"@
        || name == "refreshhotel"@ || name == "refreshcatalogue"@ || name == "coins"@ || name
        == "givebadge"@ {
        Some("fuse_administrator_access"@)
    } else {
        None
    }
}

/// The fuse right a speech command needs (see `command_right_spec`).
pub fn command_right(name: &str) -> (r: Option<String>)
    ensures
        r is None <==> command_right_spec(name@) is None,
        r matches Some(v) ==> command_right_spec(name@) == Some(v@),
{
    let right = if str_eq(name, "alert") || str_eq(name, "ra") {
        "fuse_alert"
    } else if str_eq(name, "roomalert") {
        "fuse_room_alert"
    } else if str_eq(name, "kick") {
        "fuse_kick"
    } else if str_eq(name, "roomkick") {
        "fuse_room_kick"
    } else if str_eq(name, "shutup") || str_eq(name, "unmute") {
        "fuse_mute"
    } else if str_eq(name, "roomshutup") || str_eq(name, "roomunmute") {
        "fuse_room_mute"
    } else if str_eq(name, "ban") {
        "fuse_ban"
    } else if str_eq(name, "superban") {
        "fuse_superban"
    } else if str_eq(name, "info") || str_eq(name, "find") || str_eq(name, "teleport") || str_eq(name, "warp")
        || str_eq(name, "teletome") || str_eq(name, "commands") {
        "fuse_moderator_access"
    } else if str_eq(name, "offline") || str_eq(name, "position") || str_eq(name, "ha") || str_eq(
        name,
        "refreshrooms",
    ) || str_eq(name, "refreshhotel") || str_eq(name, "refreshcatalogue") || str_eq(name, "coins")
        || str_eq(name, "givebadge") {
        "fuse_administrator_access"
    } else {
        return None;
    };
    Some(crate::text::owned(right))
}

// ---------------------------------------------------------------- hand pages

/// The hand page after a paging request: `next` and `prev` move one page,
/// `last` goes to the last page, `update` stays, anything else goes to the
/// first page.
pub open spec fn paged(mode: Seq<char>, page: int, item_count: int) -> int {
    if mode == "next"@ {
        page + 1
    } else if mode == "prev"@ {
        page - 1
    } else if mode == "last"@ {
        if item_count > 0 { (item_count - 1) / 9 } else { 0 }
    } else if mode == "update"@ {
        page
    } else {
        0
    }
}

/// The window of items a hand page shows, stepping back a page at a time
/// while the page is past the items: the page, and the first and last
/// index (exclusive).
pub open spec fn hand_window(page: int, start: int, stop: int, len: int) -> (int, int, int)
    decreases page,
{
    let stop1 = if stop > start + 9 { start + 9 } else { stop };
    if start < stop1 {
        (page, start, stop1)
    } else if page - 1 < 0 {
        (0, 0, stop1)
    } else {
        hand_window(page - 1, (page - 1) * 9, len, len)
    }
}

/// The page and the window of items a hand shows after a paging request,
/// for a hand of `item_count` items; with no items the page is only
/// moved, and the window is empty.
pub open spec fn hand_page_spec(mode: Seq<char>, page: int, item_count: int) -> (int, int, int) {
    let p = paged(mode, page, item_count);
    if item_count == 0 {
        (p, 0, 0)
    } else {
        hand_window(p, (if p > 0 { p } else { 0 }) * 9, item_count, item_count)
    }
}

/// Whether a paging request can be served without overflow: the hand
/// counts as an `i32`, the page can move, and nine times the new page fits
/// in an `i32`.
pub fn hand_page_fits(mode: &str, page: i32, item_count: usize) -> (r: bool)
    ensures
        r == (item_count <= i32::MAX && (mode@ == "next"@ ==> page < i32::MAX) && (mode@ == "prev"@ ==> page
            > i32::MIN) && paged(mode@, page as int, item_count as int) * 9 <= i32::MAX),
{
    if item_count > i32::MAX as usize {
        return false;
    }
    let next = str_eq(mode, "next");
    let prev = str_eq(mode, "prev");
    if next && page == i32::MAX || prev && page == i32::MIN {
        return false;
    }
    let count = item_count as i64;
    let p: i64 = if next {
        page as i64 + 1
    } else if prev {
        page as i64 - 1
    } else if str_eq(mode, "last") {
        if count > 0 { (count - 1) / 9 } else { 0 }
    } else if str_eq(mode, "update") {
        page as i64
    } else {
        0
    };
    assert(p == paged(mode@, page as int, item_count as int));
    p * 9 <= i32::MAX as i64
}

/// Moves a hand page for a paging request and finds the items it shows
/// (see `hand_page_spec`).
pub fn hand_page_window(mode: &str, page: i32, item_count: usize) -> (r: (i32, usize, usize))
    requires
        item_count <= i32::MAX,
        mode@ == "next"@ ==> page < i32::MAX,
        mode@ == "prev"@ ==> page > i32::MIN,
        paged(mode@, page as int, item_count as int) * 9 <= i32::MAX,
    ensures
        (r.0 as int, r.1 as int, r.2 as int) == hand_page_spec(mode@, page as int, item_count as int),
{
    let count = item_count as i32;
    let mut p: i32 = if str_eq(mode, "next") {
        page + 1
    } else if str_eq(mode, "prev") {
        page - 1
    } else if str_eq(mode, "last") {
        if count > 0 { (count - 1) / 9 } else { 0 }
    } else if str_eq(mode, "update") {
        page
    } else {
        0
    };
    if item_count == 0 {
        return (p, 0, 0);
    }
    let base: i32 = if p > 0 { p } else { 0 };
    let mut start: usize = (base * 9) as usize;
    let mut stop: usize = item_count;
    assert(hand_page_spec(mode@, page as int, item_count as int) == hand_window(p as int, start as int, stop as int, item_count as int));
    loop
        invariant_except_break
            p as int * 9 <= i32::MAX,
            stop <= item_count,
            start as int <= (if p > 0 { p as int } else { 0 }) * 9,
            hand_page_spec(mode@, page as int, item_count as int) == hand_window(p as int, start as int, stop as int, item_count as int),
        ensures
            (p as int, start as int, stop as int) == hand_page_spec(mode@, page as int, item_count as int),
        decreases p,
    {
        if stop > start + 9 {
            stop = start + 9;
        }
        if start < stop {
            break;
        }
        if p <= 0 {
            p = 0;
            start = 0;
            break;
        }
        p = p - 1;
        start = (p * 9) as usize;
        stop = item_count;
    }
    (p, start, stop)
}

// ---------------------------------------------------------------- login

/// The login ticket of a `CL` packet: the text after its first four bytes,
/// trimmed, when that is not empty.
pub open spec fn sso_ticket_spec(packet: Seq<char>) -> Option<Seq<char>> {
    let b = encode_utf8(packet);
    if is_char_boundary(b, 4) && crate::text::trim_spec(text_after_spec(packet, 4)).len() > 0 {
        Some(crate::text::trim_spec(text_after_spec(packet, 4)))
    } else {
        None
    }
}

/// The login ticket of a `CL` packet, escaped for the query that looks it
/// up (see `sso_ticket_spec`); `None` when the packet has none.
pub fn sso_ticket(packet: &str) -> (r: Option<String>)
    ensures
        r is None <==> sso_ticket_spec(packet@) is None,
        r matches Some(t) ==> t@ == escape_spec(sso_ticket_spec(packet@)->0),
{
    if !packet.is_char_boundary(4) {
        return None;
    }
    let rest = text_after(packet, 4);
    let ticket = crate::text::trim_str(rest);
    if ticket.as_str().is_empty() {
        return None;
    }
    Some(stripslash(ticket.as_str()))
}

/// What a session keeps of a user's row at login.
#[derive(Debug, Clone)]
pub struct LoginProfile {
    pub username: String,
    pub figure: String,
    pub sex: String,
    pub mission: String,
    pub rank: u8,
    pub guide: i32,
}

/// Reads the user row `name, figure, sex, mission, rank, consolemission,
/// guide`: `None` when it has fewer than seven fields; a rank that is no
/// `u8` counts as 1, a guide flag that is no `i32` as 0.
pub fn login_profile(row: &[String]) -> (r: Option<LoginProfile>)
    ensures
        r is None <==> row@.len() < 7,
        r matches Some(p) ==> {
            &&& p.username@ == row@[0]@
            &&& p.figure@ == row@[1]@
            &&& p.sex@ == row@[2]@
            &&& p.mission@ == row@[3]@
            &&& p.rank == (match crate::text::parse_int_spec(row@[4]@, false, 0, 255) {
                Some(v) => v as u8,
                None => 1u8,
            })
            &&& p.guide == (match crate::text::parse_int_spec(row@[6]@, true, i32::MIN as int, i32::MAX as int) {
                Some(v) => v as i32,
                None => 0i32,
            })
        },
{
    if row.len() < 7 {
        return None;
    }
    let rank = match crate::text::parse_u8(row[4].as_str()) {
        Some(v) => v,
        None => 1,
    };
    let guide = match crate::text::parse_i32(row[6].as_str()) {
        Some(v) => v,
        None => 0,
    };
    Some(LoginProfile {
        username: row[0].clone(),
        figure: row[1].clone(),
        sex: row[2].clone(),
        mission: row[3].clone(),
        rank,
        guide,
    })
}

/// Each id in decimal, followed by `\u{2}`.
pub open spec fn id_list_text(ids: Seq<i64>) -> Seq<char>
    decreases ids.len(),
{
    if ids.len() == 0 {
        Seq::empty()
    } else {
        id_list_text(ids.drop_last()) + int_text(ids.last() as int) + seq!['\u{2}']
    }
}

/// The packet that tells the client whom its user ignores: `Fd`, how many,
/// then each id.
pub fn ignore_list_packet(ids: &[i64]) -> (r: String)
    requires
        crate::text::wrap32(ids@.len() as int) != i32::MIN,
    ensures
        r@ == seq!['F', 'd'] + crate::codec::vl64_text(crate::text::wrap32(ids@.len() as int)) + id_list_text(ids@),
{
    let mut s = String::new();
    crate::text::push_char(&mut s, 'F');
    crate::text::push_char(&mut s, 'd');
    crate::codec::push_vl64(&mut s, crate::text::trunc_usize(ids.len()));
    let ghost head = s@;
    let mut i: usize = 0;
    assert(ids@.take(0) =~= Seq::<i64>::empty());
    while i < ids.len()
        invariant
            i <= ids@.len(),
            s@ == head + id_list_text(ids@.take(i as int)),
        decreases ids@.len() - i,
    {
        assert(ids@.take(i + 1).drop_last() =~= ids@.take(i as int));
        push_i64(&mut s, ids[i]);
        crate::text::push_char(&mut s, '\u{2}');
        i += 1;
    }
    assert(ids@.take(ids@.len() as int) =~= ids@);
    s
}

/// A hand page shows at most nine items, all of them in the hand: for a
/// hand with items, the window is a non-empty run of at most nine indices
/// below the item count.
pub proof fn law_hand_window_in_range(mode: Seq<char>, page: int, item_count: int)
    requires
        item_count > 0,
    ensures
        ({
            let (p, start, stop) = hand_page_spec(mode, page, item_count);
            0 <= start < stop <= item_count && stop - start <= 9
        }),
{
    let p = paged(mode, page, item_count);
    let base = if p > 0 { p } else { 0 };
    lemma_hand_window_range(p, base * 9, item_count, item_count);
}

proof fn lemma_hand_window_range(page: int, start: int, stop: int, len: int)
    requires
        len > 0,
        stop == len,
        start >= 0,
        page >= 0 ==> start == page * 9,
        page < 0 ==> start == 0,
    ensures
        ({
            let (p, a, b) = hand_window(page, start, stop, len);
            0 <= a < b <= len && b - a <= 9
        }),
    decreases page,
{
    let stop1 = if stop > start + 9 { start + 9 } else { stop };
    if start < stop1 {
    } else if page - 1 < 0 {
        assert(start >= stop1);
        assert(page <= 0);
        assert(start == 0);
    } else {
        assert((page - 1) * 9 >= 0) by (nonlinear_arith)
            requires
                page - 1 >= 0,
        ;
        lemma_hand_window_range(page - 1, (page - 1) * 9, len, len);
    }
}

// ---------------------------------------------------------------- request numbers

/// The number that a request carries as decimal text after its header,
/// trimmed (`packet.get(2..)`, trimmed, read as an `i64`).
pub open spec fn packet_decimal_spec(packet: Seq<char>) -> Option<int> {
    parse_int_spec(crate::text::trim_spec(after_header(packet)), true, i64::MIN as int, i64::MAX as int)
}

/// The number that a request carries as decimal text after its header (see
/// `packet_decimal_spec`).
pub fn packet_decimal(packet: &str) -> (r: Option<i64>)
    ensures
        r == (match packet_decimal_spec(packet@) {
            Some(v) => Some(v as i64),
            None => None::<i64>,
        }),
{
    let body = crate::text::trim_str(packet_body(packet));
    crate::text::parse_i64(body.as_str())
}

/// The number that a request carries as VL64 after its header.
pub open spec fn packet_vl64_spec(packet: Seq<char>) -> Option<int> {
    match crate::codec::vl64_decode_spec(encode_utf8(after_header(packet))) {
        Ok((v, _)) => Some(v),
        Err(_) => None,
    }
}

/// The number that a request carries as VL64 after its header (see
/// `packet_vl64_spec`).
pub fn packet_vl64(packet: &str) -> (r: Option<i32>)
    requires
        crate::codec::vl64_decodable(encode_utf8(after_header(packet@))),
    ensures
        r == (match packet_vl64_spec(packet@) {
            Some(v) => Some(v as i32),
            None => None::<i32>,
        }),
{
    match crate::codec::decode_vl64(packet_body(packet)) {
        Ok((v, _)) => Some(v),
        Err(_) => None,
    }
}

} // verus!
