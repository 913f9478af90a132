//! Staff speech commands: what a command line asks for, read from its
//! words before anything is looked up, and the checks made once the target
//! is known.
use vstd::prelude::*;

use crate::session::{words_spec, speech_words, text_after, text_after_spec};
use crate::strings::{join_words, strings_view, wrap_parameters, escape_spec, stripslash};
use crate::text::{parse_int_spec, parse_i64, parse_i32, parse_u8, str_eq, owned, trim_str, trim_spec};

verus! {

/// The word at position `i`, if there is one.
pub open spec fn word_at(w: Seq<Seq<char>>, i: int) -> Option<Seq<char>> {
    if 0 <= i < w.len() {
        Some(w[i])
    } else {
        None
    }
}

/// The words from position `k` on, joined with single spaces.
pub open spec fn words_from(w: Seq<Seq<char>>, k: int) -> Seq<char> {
    join_words(w.subrange(if k < w.len() { k } else { w.len() as int }, w.len() as int))
}

/// The word at position `i` read as an integer in `lo..=hi`, if there is
/// such a word and it reads.
pub open spec fn number_at(w: Seq<Seq<char>>, i: int, lo: int, hi: int) -> Option<int> {
    match word_at(w, i) {
        Some(s) => parse_int_spec(s, true, lo, hi),
        None => None,
    }
}

/// The text of an optional string.
pub open spec fn opt_text(o: Option<String>) -> Option<Seq<char>> {
    match o {
        Some(s) => Some(s@),
        None => None,
    }
}

/// What a speech command asks for, as text.
pub enum SpeechRequest {
    EmptyHand,
    Alert { target: Option<Seq<char>>, message: Seq<char> },
    RoomAlert { message: Seq<char> },
    Kick { target: Option<Seq<char>>, message: Seq<char> },
    RoomKick { message: Seq<char> },
    Shutup { target: Option<Seq<char>>, message: Seq<char> },
    Unmute { target: Option<Seq<char>> },
    RoomShutup { message: Seq<char> },
    RoomUnmute,
    Ban { target: Option<Seq<char>>, hours: int, reason: Seq<char> },
    Superban { target: Option<Seq<char>>, hours: int, reason: Seq<char> },
    Info { target: Option<Seq<char>> },
    Find { target: Option<Seq<char>> },
    Teleport,
    Warp { x: Option<int>, y: Option<int> },
    Teletome { target: Option<Seq<char>> },
    Offline { minutes: Option<int> },
    Position,
    HotelAlert { message: Seq<char> },
    RankAlert { message: Seq<char> },
    Refresh,
    RefreshCatalogue,
    Coins { target: Option<Seq<char>>, credits: Option<int> },
    GiveBadge { target: Option<Seq<char>>, badge: Option<Seq<char>> },
    Commands,
}

/// What a speech command asks for, read from the words of what was said:
/// the first word names the command; targets are the second word; messages
/// and reasons are the remaining words joined with single spaces, except for
/// room, hotel and rank alerts, which take the raw text after the command
/// (after its first 10 or 3 bytes); numbers are words read as integers (a
/// ban's hours as 0 when missing or unreadable); a badge is the third word,
/// trimmed and escaped. Nothing when no command is named.
pub open spec fn speech_request_spec(text: Seq<char>) -> Option<SpeechRequest> {
    let w = words_spec(text);
    if w.len() == 0 {
        None
    } else {
        let c = w[0];
        if c == "emptyhand"@ {
            Some(SpeechRequest::EmptyHand)
        } else if c == "alert"@ {
            Some(SpeechRequest::Alert { target: word_at(w, 1), message: words_from(w, 2) })
        } else if c == "roomalert"@ {
            Some(SpeechRequest::RoomAlert { message: text_after_spec(text, 10) })
        } else if c == "kick"@ {
            Some(SpeechRequest::Kick { target: word_at(w, 1), message: words_from(w, 2) })
        } else if c == "roomkick"@ {
            Some(SpeechRequest::RoomKick { message: words_from(w, 1) })
        } else if c == "shutup"@ {
            Some(SpeechRequest::Shutup { target: word_at(w, 1), message: words_from(w, 2) })
        } else if c == "unmute"@ {
            Some(SpeechRequest::Unmute { target: word_at(w, 1) })
        } else if c == "roomshutup"@ {
            Some(SpeechRequest::RoomShutup { message: words_from(w, 1) })
        } else if c == "roomunmute"@ {
            Some(SpeechRequest::RoomUnmute)
        } else if c == "ban"@ || c == "superban"@ {
            let hours = match number_at(w, 2, i64::MIN as int, i64::MAX as int) {
                Some(h) => h,
                None => 0,
            };
            if c == "ban"@ {
                Some(SpeechRequest::Ban { target: word_at(w, 1), hours, reason: words_from(w, 3) })
            } else {
                Some(SpeechRequest::Superban { target: word_at(w, 1), hours, reason: words_from(w, 3) })
            }
        } else if c == "info"@ {
            Some(SpeechRequest::Info { target: word_at(w, 1) })
        } else if c == "find"@ {
            Some(SpeechRequest::Find { target: word_at(w, 1) })
        } else if c == "teleport"@ {
            Some(SpeechRequest::Teleport)
        } else if c == "warp"@ {
            Some(
                SpeechRequest::Warp {
                    x: number_at(w, 1, i32::MIN as int, i32::MAX as int),
                    y: number_at(w, 2, i32::MIN as int, i32::MAX as int),
                },
            )
        } else if c == "teletome"@ {
            Some(SpeechRequest::Teletome { target: word_at(w, 1) })
        } else if c == "offline"@ {
            Some(SpeechRequest::Offline { minutes: number_at(w, 1, i32::MIN as int, i32::MAX as int) })
        } else if c == "position"@ {
            Some(SpeechRequest::Position)
        } else if c == "ha"@ {
            Some(SpeechRequest::HotelAlert { message: text_after_spec(text, 3) })
        } else if c == "ra"@ {
            Some(SpeechRequest::RankAlert { message: text_after_spec(text, 3) })
        } else if c == "refreshrooms"@ || c == "refreshhotel"@ {
            Some(SpeechRequest::Refresh)
        } else if c == "refreshcatalogue"@ {
            Some(SpeechRequest::RefreshCatalogue)
        } else if c == "coins"@ {
            Some(
                SpeechRequest::Coins {
                    target: word_at(w, 1),
                    credits: number_at(w, 2, i64::MIN as int, i64::MAX as int),
                },
            )
        } else if c == "givebadge"@ {
            Some(
                SpeechRequest::GiveBadge {
                    target: word_at(w, 1),
                    badge: match word_at(w, 2) {
                        Some(b) => Some(escape_spec(trim_spec(b))),
                        None => None,
                    },
                },
            )
        } else if c == "commands"@ {
            Some(SpeechRequest::Commands)
        } else {
            None
        }
    }
}

/// What a speech command asks for.
#[derive(Debug)]
pub enum SpeechCommand {
    EmptyHand,
    Alert { target: Option<String>, message: String },
    RoomAlert { message: String },
    Kick { target: Option<String>, message: String },
    RoomKick { message: String },
    Shutup { target: Option<String>, message: String },
    Unmute { target: Option<String> },
    RoomShutup { message: String },
    RoomUnmute,
    Ban { target: Option<String>, hours: i64, reason: String },
    Superban { target: Option<String>, hours: i64, reason: String },
    Info { target: Option<String> },
    Find { target: Option<String> },
    Teleport,
    Warp { x: Option<i32>, y: Option<i32> },
    Teletome { target: Option<String> },
    Offline { minutes: Option<i32> },
    Position,
    HotelAlert { message: String },
    RankAlert { message: String },
    Refresh,
    RefreshCatalogue,
    Coins { target: Option<String>, credits: Option<i64> },
    GiveBadge { target: Option<String>, badge: Option<String> },
    Commands,
}

/// An optional `i32` as an optional integer.
pub open spec fn opt_i32(o: Option<i32>) -> Option<int> {
    match o {
        Some(v) => Some(v as int),
        None => None,
    }
}

/// An optional `i64` as an optional integer.
pub open spec fn opt_i64(o: Option<i64>) -> Option<int> {
    match o {
        Some(v) => Some(v as int),
        None => None,
    }
}

impl View for SpeechCommand {
    type V = SpeechRequest;

    open spec fn view(&self) -> SpeechRequest {
        match *self {
            SpeechCommand::EmptyHand => SpeechRequest::EmptyHand,
            SpeechCommand::Alert { target, message } => SpeechRequest::Alert {
                target: opt_text(target),
                message: message@,
            },
            SpeechCommand::RoomAlert { message } => SpeechRequest::RoomAlert { message: message@ },
            SpeechCommand::Kick { target, message } => SpeechRequest::Kick {
                target: opt_text(target),
                message: message@,
            },
            SpeechCommand::RoomKick { message } => SpeechRequest::RoomKick { message: message@ },
            SpeechCommand::Shutup { target, message } => SpeechRequest::Shutup {
                target: opt_text(target),
                message: message@,
            },
            SpeechCommand::Unmute { target } => SpeechRequest::Unmute { target: opt_text(target) },
            SpeechCommand::RoomShutup { message } => SpeechRequest::RoomShutup { message: message@ },
            SpeechCommand::RoomUnmute => SpeechRequest::RoomUnmute,
            SpeechCommand::Ban { target, hours, reason } => SpeechRequest::Ban {
                target: opt_text(target),
                hours: hours as int,
                reason: reason@,
            },
            SpeechCommand::Superban { target, hours, reason } => SpeechRequest::Superban {
                target: opt_text(target),
                hours: hours as int,
                reason: reason@,
            },
            SpeechCommand::Info { target } => SpeechRequest::Info { target: opt_text(target) },
            SpeechCommand::Find { target } => SpeechRequest::Find { target: opt_text(target) },
            SpeechCommand::Teleport => SpeechRequest::Teleport,
            SpeechCommand::Warp { x, y } => SpeechRequest::Warp { x: opt_i32(x), y: opt_i32(y) },
            SpeechCommand::Teletome { target } => SpeechRequest::Teletome { target: opt_text(target) },
            SpeechCommand::Offline { minutes } => SpeechRequest::Offline { minutes: opt_i32(minutes) },
            SpeechCommand::Position => SpeechRequest::Position,
            SpeechCommand::HotelAlert { message } => SpeechRequest::HotelAlert { message: message@ },
            SpeechCommand::RankAlert { message } => SpeechRequest::RankAlert { message: message@ },
            SpeechCommand::Refresh => SpeechRequest::Refresh,
            SpeechCommand::RefreshCatalogue => SpeechRequest::RefreshCatalogue,
            SpeechCommand::Coins { target, credits } => SpeechRequest::Coins {
                target: opt_text(target),
                credits: opt_i64(credits),
            },
            SpeechCommand::GiveBadge { target, badge } => SpeechRequest::GiveBadge {
                target: opt_text(target),
                badge: opt_text(badge),
            },
            SpeechCommand::Commands => SpeechRequest::Commands,
        }
    }
}

fn word_at_exec(words: &Vec<String>, i: usize) -> (r: Option<String>)
    ensures
        opt_text(r) == word_at(strings_view(words@), i as int),
{
    if i < words.len() {
        Some(words[i].clone())
    } else {
        None
    }
}

fn i64_at(words: &Vec<String>, i: usize) -> (r: Option<i64>)
    ensures
        opt_i64(r) == number_at(strings_view(words@), i as int, i64::MIN as int, i64::MAX as int),
{
    if i < words.len() {
        parse_i64(words[i].as_str())
    } else {
        None
    }
}

fn i32_at(words: &Vec<String>, i: usize) -> (r: Option<i32>)
    ensures
        opt_i32(r) == number_at(strings_view(words@), i as int, i32::MIN as int, i32::MAX as int),
{
    if i < words.len() {
        parse_i32(words[i].as_str())
    } else {
        None
    }
}

/// What a speech command asks for (see `speech_request_spec`).
pub fn parse_speech_command(text: &str) -> (r: Option<SpeechCommand>)
    ensures
        match r {
            Some(c) => speech_request_spec(text@) == Some(c@),
            None => speech_request_spec(text@) is None,
        },
{
    let words = speech_words(text);
    let ghost w = strings_view(words@);
    if words.len() == 0 {
        return None;
    }
    assert(w[0] == words@[0]@);
    let c = words[0].as_str();
    if str_eq(c, "emptyhand") {
        Some(SpeechCommand::EmptyHand)
    } else if str_eq(c, "alert") {
        Some(SpeechCommand::Alert { target: word_at_exec(&words, 1), message: wrap_parameters(words.as_slice(), 2) })
    } else if str_eq(c, "roomalert") {
        Some(SpeechCommand::RoomAlert { message: owned(text_after(text, 10)) })
    } else if str_eq(c, "kick") {
        Some(SpeechCommand::Kick { target: word_at_exec(&words, 1), message: wrap_parameters(words.as_slice(), 2) })
    } else if str_eq(c, "roomkick") {
        Some(SpeechCommand::RoomKick { message: wrap_parameters(words.as_slice(), 1) })
    } else if str_eq(c, "shutup") {
        Some(SpeechCommand::Shutup { target: word_at_exec(&words, 1), message: wrap_parameters(words.as_slice(), 2) })
    } else if str_eq(c, "unmute") {
        Some(SpeechCommand::Unmute { target: word_at_exec(&words, 1) })
    } else if str_eq(c, "roomshutup") {
        Some(SpeechCommand::RoomShutup { message: wrap_parameters(words.as_slice(), 1) })
    } else if str_eq(c, "roomunmute") {
        Some(SpeechCommand::RoomUnmute)
    } else if str_eq(c, "ban") || str_eq(c, "superban") {
        let hours = match i64_at(&words, 2) {
            Some(h) => h,
            None => 0,
        };
        let target = word_at_exec(&words, 1);
        let reason = wrap_parameters(words.as_slice(), 3);
        if str_eq(c, "ban") {
            Some(SpeechCommand::Ban { target, hours, reason })
        } else {
            Some(SpeechCommand::Superban { target, hours, reason })
        }
    } else if str_eq(c, "info") {
        Some(SpeechCommand::Info { target: word_at_exec(&words, 1) })
    } else if str_eq(c, "find") {
        Some(SpeechCommand::Find { target: word_at_exec(&words, 1) })
    } else if str_eq(c, "teleport") {
        Some(SpeechCommand::Teleport)
    } else if str_eq(c, "warp") {
        Some(SpeechCommand::Warp { x: i32_at(&words, 1), y: i32_at(&words, 2) })
    } else if str_eq(c, "teletome") {
        Some(SpeechCommand::Teletome { target: word_at_exec(&words, 1) })
    } else if str_eq(c, "offline") {
        Some(SpeechCommand::Offline { minutes: i32_at(&words, 1) })
    } else if str_eq(c, "position") {
        Some(SpeechCommand::Position)
    } else if str_eq(c, "ha") {
        Some(SpeechCommand::HotelAlert { message: owned(text_after(text, 3)) })
    } else if str_eq(c, "ra") {
        Some(SpeechCommand::RankAlert { message: owned(text_after(text, 3)) })
    } else if str_eq(c, "refreshrooms") || str_eq(c, "refreshhotel") {
        Some(SpeechCommand::Refresh)
    } else if str_eq(c, "refreshcatalogue") {
        Some(SpeechCommand::RefreshCatalogue)
    } else if str_eq(c, "coins") {
        Some(SpeechCommand::Coins { target: word_at_exec(&words, 1), credits: i64_at(&words, 2) })
    } else if str_eq(c, "givebadge") {
        let badge = if words.len() > 2 {
            Some(stripslash(trim_str(words[2].as_str()).as_str()))
        } else {
            None
        };
        Some(SpeechCommand::GiveBadge { target: word_at_exec(&words, 1), badge })
    } else if str_eq(c, "commands") {
        Some(SpeechCommand::Commands)
    } else {
        None
    }
}

/// How a ban by name ends once the user's row (`id, rank, ...`) is read:
/// the user is not found when the row is short, the ban is refused when the
/// user outranks the one banning, and it fails without hours or a reason.
#[derive(PartialEq, Eq, Structural, Clone, Copy, Debug)]
pub enum BanOutcome {
    UserNotFound,
    RankError,
    Failed,
    Banned { target_id: i64 },
}

/// How a ban ends (see `BanOutcome`): a row shorter than `needed` columns
/// means the user was not found; the id reads as an `i64` and the rank as a
/// `u8`, each 0 when it does not read.
pub open spec fn ban_outcome_spec(row: Seq<Seq<char>>, needed: int, own_rank: u8, hours: i64, reason: Seq<char>) -> BanOutcome {
    if row.len() < needed {
        BanOutcome::UserNotFound
    } else {
        let target_rank = match parse_int_spec(row[1], false, 0, 255) {
            Some(v) => v,
            None => 0,
        };
        if target_rank > own_rank {
            BanOutcome::RankError
        } else if hours == 0 || reason.len() == 0 {
            BanOutcome::Failed
        } else {
            BanOutcome::Banned {
                target_id: match parse_int_spec(row[0], true, i64::MIN as int, i64::MAX as int) {
                    Some(v) => v as i64,
                    None => 0,
                },
            }
        }
    }
}

/// How a ban ends (see `ban_outcome_spec`); a ban by name reads two
/// columns and a ban of the user's address three.
pub fn ban_outcome(row: &[String], needed: usize, own_rank: u8, hours: i64, reason: &str) -> (r: BanOutcome)
    requires
        needed >= 2,
    ensures
        r == ban_outcome_spec(strings_view(row@), needed as int, own_rank, hours, reason@),
{
    let ghost rv = strings_view(row@);
    if row.len() < needed {
        return BanOutcome::UserNotFound;
    }
    assert(rv[1] == row@[1]@);
    assert(rv[0] == row@[0]@);
    let target_rank = match parse_u8(row[1].as_str()) {
        Some(v) => v,
        None => 0,
    };
    if target_rank > own_rank {
        BanOutcome::RankError
    } else if hours == 0 || reason.is_empty() {
        BanOutcome::Failed
    } else {
        let target_id = match parse_i64(row[0].as_str()) {
            Some(v) => v,
            None => 0,
        };
        BanOutcome::Banned { target_id }
    }
}

/// A staff member cannot act on a user whose rank, read from the database
/// and cut to a byte, is at least their own.
pub fn target_outranks(target_rank: i64, own_rank: u8) -> (r: bool)
    ensures
        r == ((target_rank as u8) >= own_rank),
{
    (target_rank as u8) >= own_rank
}

} // verus!
