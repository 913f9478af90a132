//! The MUS side channel: how a packet from the web site is cut into a
//! header and parameters, and which action each header asks for.
use vstd::prelude::*;
use vstd::utf8::{decode_utf8, encode_utf8, is_char_boundary};
use vstd::string::StringSliceAdditionalSpecFns;

use crate::strings::strings_view;
use crate::text::{
    parse_i64, parse_u8, parse_int_spec, spec_utf8_lossy, split_chars, split_spec, str_eq, to_chars,
    string_of, utf8_lossy, owned,
};

verus! {

broadcast use vstd::utf8::encode_utf8_valid_utf8, vstd::utf8::encode_utf8_decode_utf8;

/// A MUS packet: a four-byte header and the parameters after it, separated
/// by `\u{2}`.
#[derive(Debug, Clone)]
pub struct MusPacket {
    pub header: String,
    pub parts: Vec<String>,
}

/// The header and parameters of a packet's text, when the text is at least
/// four bytes long and its fourth byte ends a character.
pub open spec fn mus_split_spec(text: Seq<char>) -> Option<(Seq<char>, Seq<Seq<char>>)> {
    let b = encode_utf8(text);
    if b.len() >= 4 && is_char_boundary(b, 4) {
        Some((decode_utf8(b.subrange(0, 4)), split_spec(decode_utf8(b.subrange(4, b.len() as int)), '\u{2}')))
    } else {
        None
    }
}

/// Cuts the text of a MUS packet into its header and parameters (see
/// `mus_split_spec`).
pub fn split_mus_text(text: &str) -> (r: Option<MusPacket>)
    ensures
        r is None <==> mus_split_spec(text@) is None,
        r matches Some(p) ==> mus_split_spec(text@) == Some((p.header@, strings_view(p.parts@))),
{
    if !text.is_char_boundary(4) {
        return None;
    }
    assert(text.spec_bytes().len() >= 4);
    let (head, rest) = text.split_at(4);
    proof {
        vstd::utf8::encode_utf8_decode_utf8(head@);
        vstd::utf8::encode_utf8_decode_utf8(rest@);
    }
    let cs = to_chars(rest);
    let pieces = split_chars(cs.as_slice(), '\u{2}');
    let mut parts: Vec<String> = Vec::new();
    let mut i: usize = 0;
    while i < pieces.len()
        invariant
            i <= pieces@.len(),
            parts@.len() == i,
            forall|j: int| 0 <= j < i ==> #[trigger] parts@[j]@ == pieces@[j]@,
        decreases pieces@.len() - i,
    {
        parts.push(string_of(pieces[i].as_slice()));
        i += 1;
    }
    let p = MusPacket { header: owned(head), parts };
    assert(strings_view(p.parts@) =~= split_spec(rest@, '\u{2}'));
    Some(p)
}

/// The text of a received MUS packet's bytes (invalid UTF-8 replaced), cut
/// into header and parameters; `None` when it is too short, or when its
/// fourth byte falls inside a character, where nothing is handled.
pub fn split_mus_packet(raw: &[u8]) -> (r: Option<MusPacket>)
    ensures
        raw@.len() < 4 ==> r is None,
        raw@.len() >= 4 ==> {
            &&& (r is None <==> mus_split_spec(spec_utf8_lossy(raw@)) is None)
            &&& (r matches Some(p) ==> mus_split_spec(spec_utf8_lossy(raw@)) == Some(
                (p.header@, strings_view(p.parts@)),
            ))
        },
{
    if raw.len() < 4 {
        return None;
    }
    let text = utf8_lossy(raw);
    split_mus_text(text.as_str())
}

/// The user id a MUS command names: its first parameter as an `i64`, or 0.
pub open spec fn user_id_spec(parts: Seq<Seq<char>>) -> i64 {
    if parts.len() == 0 {
        0
    } else {
        match parse_int_spec(parts[0], true, i64::MIN as int, i64::MAX as int) {
            Some(v) => v as i64,
            None => 0,
        }
    }
}

/// The user id a MUS command names (see `user_id_spec`).
pub fn parse_user_id(parts: &[String]) -> (r: i64)
    ensures
        r == user_id_spec(strings_view(parts@)),
{
    if parts.len() == 0 {
        return 0;
    }
    match parse_i64(parts[0].as_str()) {
        Some(v) => v,
        None => 0,
    }
}

/// What a MUS packet asks the hotel to do.
#[derive(Debug, Clone)]
pub enum MusCommand {
    /// `HKTM`: show an alert to a user.
    Alert { user_id: i64, message: String },
    /// `HKMW`: show a moderator warning to a user.
    ModeratorWarning { user_id: i64, message: String },
    /// `HKUK`: kick a user from their room.
    KickFromRoom { user_id: i64, message: String },
    /// `HKAR`: alert everyone of a rank (and, when asked, higher ranks).
    RankAlert { rank: u8, include_higher: bool, message: String },
    /// `HKSB`: tell a user of their ban, then disconnect them.
    Ban { user_id: i64, message: String },
    /// `HKRC`: reload the catalogue.
    ReloadCatalogue,
    /// `UPRA`: refresh a user's appearance.
    RefreshAppearance { user_id: i64 },
    /// `UPRC`: refresh a user's credits.
    RefreshCredits { user_id: i64 },
    /// `UPRT`: refresh a user's tickets.
    RefreshTickets { user_id: i64 },
    /// `UPRS`: refresh a user's club status and badges.
    RefreshClubAndBadges { user_id: i64 },
    /// `UPRH`: refresh a user's hand.
    RefreshHand { user_id: i64 },
    /// Any other header.
    Ignored,
}

/// Parameter `i`, or the empty text where there is none.
pub open spec fn part_or_empty(parts: Seq<Seq<char>>, i: int) -> Seq<char> {
    if 0 <= i < parts.len() {
        parts[i]
    } else {
        Seq::empty()
    }
}

/// The rank a rank alert names: its first parameter as a `u8`, or 0.
pub open spec fn rank_spec(parts: Seq<Seq<char>>) -> u8 {
    if parts.len() == 0 {
        0
    } else {
        match parse_int_spec(parts[0], false, 0, 255) {
            Some(v) => v as u8,
            None => 0,
        }
    }
}

/// Whether the command that `header` and `parts` make is `c`.
pub open spec fn mus_command_spec(header: Seq<char>, parts: Seq<Seq<char>>, c: MusCommand) -> bool {
    let uid = user_id_spec(parts);
    let msg1 = part_or_empty(parts, 1);
    if header == "HKTM"@ {
        c matches MusCommand::Alert { user_id, message } && user_id == uid && message@ == msg1
    } else if header == "HKMW"@ {
        c matches MusCommand::ModeratorWarning { user_id, message } && user_id == uid && message@
            == msg1
    } else if header == "HKUK"@ {
        c matches MusCommand::KickFromRoom { user_id, message } && user_id == uid && message@ == msg1
    } else if header == "HKAR"@ {
        c matches MusCommand::RankAlert { rank, include_higher, message } && rank == rank_spec(parts)
            && include_higher == (parts.len() > 1 && parts[1] == "1"@) && message@ == part_or_empty(
            parts,
            2,
        )
    } else if header == "HKSB"@ {
        c matches MusCommand::Ban { user_id, message } && user_id == uid && message@ == msg1
    } else if header == "HKRC"@ {
        c is ReloadCatalogue
    } else if header == "UPRA"@ {
        c matches MusCommand::RefreshAppearance { user_id } && user_id == uid
    } else if header == "UPRC"@ {
        c matches MusCommand::RefreshCredits { user_id } && user_id == uid
    } else if header == "UPRT"@ {
        c matches MusCommand::RefreshTickets { user_id } && user_id == uid
    } else if header == "UPRS"@ {
        c matches MusCommand::RefreshClubAndBadges { user_id } && user_id == uid
    } else if header == "UPRH"@ {
        c matches MusCommand::RefreshHand { user_id } && user_id == uid
    } else {
        c is Ignored
    }
}

/// Parameter `i`, or the empty text where there is none.
fn part_or_empty_exec(parts: &[String], i: usize) -> (r: String)
    ensures
        r@ == part_or_empty(strings_view(parts@), i as int),
{
    if i < parts.len() {
        parts[i].clone()
    } else {
        String::new()
    }
}

/// Which action a MUS packet asks for (see `mus_command_spec`).
pub fn mus_command(header: &str, parts: &[String]) -> (r: MusCommand)
    ensures
        mus_command_spec(header@, strings_view(parts@), r),
{
    let uid = parse_user_id(parts);
    if str_eq(header, "HKTM") {
        MusCommand::Alert { user_id: uid, message: part_or_empty_exec(parts, 1) }
    } else if str_eq(header, "HKMW") {
        MusCommand::ModeratorWarning { user_id: uid, message: part_or_empty_exec(parts, 1) }
    } else if str_eq(header, "HKUK") {
        MusCommand::KickFromRoom { user_id: uid, message: part_or_empty_exec(parts, 1) }
    } else if str_eq(header, "HKAR") {
        let rank = if parts.len() == 0 {
            0
        } else {
            match parse_u8(parts[0].as_str()) {
                Some(v) => v,
                None => 0,
            }
        };
        let include_higher = parts.len() > 1 && str_eq(parts[1].as_str(), "1");
        MusCommand::RankAlert { rank, include_higher, message: part_or_empty_exec(parts, 2) }
    } else if str_eq(header, "HKSB") {
        MusCommand::Ban { user_id: uid, message: part_or_empty_exec(parts, 1) }
    } else if str_eq(header, "HKRC") {
        MusCommand::ReloadCatalogue
    } else if str_eq(header, "UPRA") {
        MusCommand::RefreshAppearance { user_id: uid }
    } else if str_eq(header, "UPRC") {
        MusCommand::RefreshCredits { user_id: uid }
    } else if str_eq(header, "UPRT") {
        MusCommand::RefreshTickets { user_id: uid }
    } else if str_eq(header, "UPRS") {
        MusCommand::RefreshClubAndBadges { user_id: uid }
    } else if str_eq(header, "UPRH") {
        MusCommand::RefreshHand { user_id: uid }
    } else {
        MusCommand::Ignored
    }
}

} // verus!
