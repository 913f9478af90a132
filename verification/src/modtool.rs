//! The moderation tool: what its alert, kick and ban requests carry, and
//! what a call for help says. Each text field is a B64 length and that many
//! bytes; the message has its `\u{1}` separators turned into spaces.
use vstd::prelude::*;
use vstd::utf8::encode_utf8;
use vstd::string::StringSliceAdditionalSpecFns;

use crate::codec::{b64_decode_spec, decode_b64, vl64_decode_spec, vl64_decodable, decode_vl64, lemma_vl64_decoded_range};
use crate::session::{text_after, text_after_spec};
use crate::stickies::{lemma_range_bytes, text_range_checked, text_range_ok, text_range_spec};
use crate::text::{owned, to_chars, string_of};

verus! {

broadcast use vstd::utf8::encode_utf8_valid_utf8, vstd::utf8::encode_utf8_decode_utf8;

/// The B64 number in bytes `a` and `a + 1`, when they can be sliced and are
/// B64.
pub open spec fn b64_at(p: Seq<char>, a: int) -> Option<int> {
    if text_range_ok(p, a, a + 2) {
        match b64_decode_spec(encode_utf8(text_range_spec(p, a, a + 2))) {
            Ok(v) => Some(v),
            Err(_) => None,
        }
    } else {
        None
    }
}

/// The `n` bytes from byte `a`, when they can be sliced.
pub open spec fn slice_at(p: Seq<char>, a: int, n: int) -> Option<Seq<char>> {
    if text_range_ok(p, a, a + n) {
        Some(text_range_spec(p, a, a + n))
    } else {
        None
    }
}

/// A text with each `\u{1}` turned into a space.
pub open spec fn spaced(s: Seq<char>) -> Seq<char> {
    s.map_values(|c: char| if c == '\u{1}' { ' ' } else { c })
}

fn b64_at_exec(p: &str, a: usize) -> (r: Option<usize>)
    requires
        a <= 100_000,
    ensures
        match b64_at(p@, a as int) {
            Some(v) => r == Some(v as usize) && 0 <= v <= 191 * 65,
            None => r is None,
        },
{
    match text_range_checked(p, a, a + 2) {
        Some(raw) => {
            proof {
                lemma_range_bytes(p@, a as int, a + 2);
                crate::game_settings::lemma_two_bytes(raw.spec_bytes());
            }
            match decode_b64(raw) {
                Ok(v) => Some(v),
                Err(_) => None,
            }
        },
        None => None,
    }
}

fn spaced_exec(s: &str) -> (r: String)
    ensures
        r@ == spaced(s@),
{
    let cs = to_chars(s);
    let n = cs.len();
    let mut out: Vec<char> = Vec::new();
    let mut i: usize = 0;
    while i < n
        invariant
            n == cs@.len(),
            cs@ == s@,
            i <= n,
            out@ =~= spaced(s@.take(i as int)),
        decreases n - i,
    {
        out.push(if cs[i] == '\u{1}' { ' ' } else { cs[i] });
        assert(spaced(s@.take(i + 1)) =~= spaced(s@.take(i as int)).push(if s@[i as int] == '\u{1}' { ' ' } else { s@[i as int] }));
        i += 1;
    }
    assert(s@.take(n as int) =~= s@);
    string_of(out.as_slice())
}

/// The message and staff note that open each request, after the header
/// and two more bytes: message length, message, note length, note. Also
/// the byte where what follows starts.
pub open spec fn message_and_note(p: Seq<char>) -> Option<(Seq<char>, Seq<char>, int)> {
    match b64_at(p, 4) {
        None => None,
        Some(ml) => match slice_at(p, 6, ml) {
            None => None,
            Some(m) => match b64_at(p, 6 + ml) {
                None => None,
                Some(nl) => match slice_at(p, 8 + ml, nl) {
                    None => None,
                    Some(note) => Some((spaced(m), note, 8 + ml + nl)),
                },
            },
        },
    }
}

fn message_and_note_exec(p: &str) -> (r: Option<(String, String, usize)>)
    ensures
        match message_and_note(p@) {
            Some((m, note, end)) => r matches Some(x) && x.0@ == m && x.1@ == note && x.2 == end && end <= 8
                + 2 * 191 * 65,
            None => r is None,
        },
{
    let ml = match b64_at_exec(p, 4) {
        Some(v) => v,
        None => {
            return None;
        },
    };
    let m = match text_range_checked(p, 6, 6 + ml) {
        Some(t) => spaced_exec(t),
        None => {
            return None;
        },
    };
    let nl = match b64_at_exec(p, 6 + ml) {
        Some(v) => v,
        None => {
            return None;
        },
    };
    let note = match text_range_checked(p, 8 + ml, 8 + ml + nl) {
        Some(t) => owned(t),
        None => {
            return None;
        },
    };
    Some((m, note, 8 + ml + nl))
}

/// An alert or kick of a user: message, staff note, then the user's name
/// from two bytes after the note to the end. Nothing when a field cannot be
/// read or the message or the name is empty.
pub open spec fn message_target_spec(p: Seq<char>) -> Option<(Seq<char>, Seq<char>, Seq<char>)> {
    match message_and_note(p) {
        None => None,
        Some((m, note, end)) => {
            let target = text_after_spec(p, end + 2);
            if m.len() == 0 || target.len() == 0 {
                None
            } else {
                Some((m, note, target))
            }
        },
    }
}

/// An alert or kick of a user (see `message_target_spec`).
pub fn parse_modtool_message_target(packet: &str) -> (r: Option<(String, String, String)>)
    ensures
        match message_target_spec(packet@) {
            Some((m, note, t)) => r matches Some(x) && x.0@ == m && x.1@ == note && x.2@ == t,
            None => r is None,
        },
{
    let (m, note, end) = match message_and_note_exec(packet) {
        Some(x) => x,
        None => {
            return None;
        },
    };
    let target = owned(text_after(packet, end + 2));
    if m.as_str().is_empty() || target.as_str().is_empty() {
        return None;
    }
    Some((m, note, target))
}

/// A message to a room: message and staff note; nothing when a field
/// cannot be read or the message is empty.
pub open spec fn room_message_spec(p: Seq<char>) -> Option<(Seq<char>, Seq<char>)> {
    match message_and_note(p) {
        None => None,
        Some((m, note, _)) => if m.len() == 0 {
            None
        } else {
            Some((m, note))
        },
    }
}

/// A message to a room (see `room_message_spec`).
pub fn parse_modtool_room_message(packet: &str) -> (r: Option<(String, String)>)
    ensures
        match room_message_spec(packet@) {
            Some((m, note)) => r matches Some(x) && x.0@ == m && x.1@ == note,
            None => r is None,
        },
{
    let (m, note, _) = match message_and_note_exec(packet) {
        Some(x) => x,
        None => {
            return None;
        },
    };
    if m.as_str().is_empty() {
        return None;
    }
    Some((m, note))
}

/// The VL64 number at the front of a text, if it decodes.
pub open spec fn vl64_head(s: Seq<char>) -> Option<int> {
    match vl64_decode_spec(encode_utf8(s)) {
        Ok((v, _)) => Some(v),
        Err(_) => None,
    }
}

/// A ban of a user: message, staff note, the user's name (a third
/// length-prefixed field), the hours (a VL64 number after the name) and
/// whether the address is banned too (the packet ends with `I`). Nothing
/// when a field cannot be read.
pub open spec fn ban_target_spec(p: Seq<char>) -> Option<(Seq<char>, Seq<char>, Seq<char>, int, bool)> {
    match message_and_note(p) {
        None => None,
        Some((m, note, end)) => match b64_at(p, end) {
            None => None,
            Some(tl) => match slice_at(p, end + 2, tl) {
                None => None,
                Some(target) => match vl64_head(text_after_spec(p, end + 2 + tl)) {
                    None => None,
                    Some(hours) => Some((m, note, target, hours, p.len() > 0 && p.last() == 'I')),
                },
            },
        },
    }
}

/// The hours of a ban can be decoded when the reading gets to them.
pub open spec fn ban_target_decodable(p: Seq<char>) -> bool {
    match message_and_note(p) {
        None => true,
        Some((_, _, end)) => match b64_at(p, end) {
            None => true,
            Some(tl) => slice_at(p, end + 2, tl) is Some ==> vl64_decodable(
                encode_utf8(text_after_spec(p, end + 2 + tl)),
            ),
        },
    }
}

/// A ban of a user (see `ban_target_spec`).
pub fn parse_modtool_ban_target(packet: &str) -> (r: Option<(String, String, String, i32, bool)>)
    requires
        ban_target_decodable(packet@),
    ensures
        match ban_target_spec(packet@) {
            Some((m, note, t, h, ip)) => r matches Some(x) && x.0@ == m && x.1@ == note && x.2@ == t && x.3 as int
                == h && x.4 == ip,
            None => r is None,
        },
{
    let (m, note, end) = match message_and_note_exec(packet) {
        Some(x) => x,
        None => {
            return None;
        },
    };
    let tl = match b64_at_exec(packet, end) {
        Some(v) => v,
        None => {
            return None;
        },
    };
    let target = match text_range_checked(packet, end + 2, end + 2 + tl) {
        Some(t) => owned(t),
        None => {
            return None;
        },
    };
    let rest = text_after(packet, end + 2 + tl);
    let hours = match decode_vl64(rest) {
        Ok((v, _)) => {
            proof {
                lemma_vl64_decoded_range(rest.spec_bytes());
            }
            v
        },
        Err(_) => {
            return None;
        },
    };
    let cs = to_chars(packet);
    let ends_with_i = cs.len() > 0 && cs[cs.len() - 1] == 'I';
    Some((m, note, target, hours, ends_with_i))
}

/// A call for help: the message, a B64 length in bytes 2 and 3 and that
/// many bytes; nothing when the length is 0 or unreadable or the message
/// cannot be sliced.
pub open spec fn help_message_spec(p: Seq<char>) -> Option<Seq<char>> {
    let n = match b64_at(p, 2) {
        Some(v) => v,
        None => 0,
    };
    if n == 0 {
        None
    } else {
        slice_at(p, 4, n)
    }
}

/// A call for help (see `help_message_spec`).
pub fn help_message(packet: &str) -> (r: Option<String>)
    ensures
        match help_message_spec(packet@) {
            Some(m) => r matches Some(x) && x@ == m,
            None => r is None,
        },
{
    let n = match b64_at_exec(packet, 2) {
        Some(v) => v,
        None => 0,
    };
    if n == 0 {
        return None;
    }
    match text_range_checked(packet, 4, 4 + n) {
        Some(t) => Some(owned(t)),
        None => None,
    }
}

} // verus!
