//! Reports for staff: what a ban says, by user and by address; and
//! whether a ban is still running.
use vstd::prelude::*;

use crate::strings::strings_view;
use crate::state::StringCache;
use crate::text::{push_str, push_i64, int_text, owned};
use chrono::{Datelike, Timelike};

verus! {

/// The staff note of a ban, from the staff log row `userid, note,
/// timestamp`: `-` when there is no row or the note is empty.
pub open spec fn log_note(log: Seq<Seq<char>>) -> Seq<char> {
    if log.len() >= 3 && log[1].len() > 0 {
        log[1]
    } else {
        "-"@
    }
}

/// Who posted a ban: the name found for the log row's user, `not
/// available` without a row.
pub open spec fn log_poster(log: Seq<Seq<char>>, poster_name: Seq<char>) -> Seq<char> {
    if log.len() >= 3 {
        poster_name
    } else {
        "not available"@
    }
}

/// When a ban was posted: the log row's timestamp, `not available` without
/// a row.
pub open spec fn log_posted(log: Seq<Seq<char>>) -> Seq<char> {
    if log.len() >= 3 {
        log[2]
    } else {
        "not available"@
    }
}

/// What a report says when the ban or the user is not found.
pub open spec fn no_report() -> Seq<char> {
    "holo.cast.banreport.null"@
}

/// The report on a user's ban, from the ban row `date_expire, descr,
/// ipaddress`, the user row `name, rank, ipaddress_last`, the staff log row
/// and the poster's name; each line a label and a value.
pub open spec fn user_ban_report_spec(
    user_id: i64,
    ban: Seq<Seq<char>>,
    user: Seq<Seq<char>>,
    log: Seq<Seq<char>>,
    poster_name: Seq<char>,
) -> Seq<char> {
    if ban.len() < 3 || user.len() < 3 {
        no_report()
    } else {
        "banreport_header "@ + user[0] + " ["@ + int_text(user_id as int) + "]\rcommon_userrank: "@ + user[1]
            + "\rcommon_ip: "@ + user[2] + "\rbanreport_banner: "@ + log_poster(log, poster_name)
            + "\rbanreport_posted: "@ + log_posted(log) + "\rbanreport_expires: "@ + ban[0]
            + "\rbanreport_reason: "@ + ban[1] + "\rbanreport_ipbanflag: "@ + (if ban[2].len() > 0 {
            "true"@
        } else {
            "false"@
        }) + "\rbanreport_staffnote: "@ + log_note(log)
    }
}

fn log_fields(log: &[String], poster_name: &str) -> (r: (String, String, String))
    ensures
        r.0@ == log_note(strings_view(log@)),
        r.1@ == log_poster(strings_view(log@), poster_name@),
        r.2@ == log_posted(strings_view(log@)),
{
    let ghost lv = strings_view(log@);
    if log.len() >= 3 {
        assert(lv[1] == log@[1]@ && lv[2] == log@[2]@);
        let note = if log[1].as_str().is_empty() {
            owned("-")
        } else {
            log[1].clone()
        };
        (note, owned(poster_name), log[2].clone())
    } else {
        (owned("-"), owned("not available"), owned("not available"))
    }
}

/// The report on a user's ban (see `user_ban_report_spec`).
pub fn user_ban_report(user_id: i64, ban: &[String], user: &[String], log: &[String], poster_name: &str) -> (r: String)
    ensures
        r@ == user_ban_report_spec(
            user_id,
            strings_view(ban@),
            strings_view(user@),
            strings_view(log@),
            poster_name@,
        ),
{
    let ghost bv = strings_view(ban@);
    let ghost uv = strings_view(user@);
    if ban.len() < 3 || user.len() < 3 {
        return owned("holo.cast.banreport.null");
    }
    assert(bv[0] == ban@[0]@ && bv[1] == ban@[1]@ && bv[2] == ban@[2]@);
    assert(uv[0] == user@[0]@ && uv[1] == user@[1]@ && uv[2] == user@[2]@);
    let (note, poster, posted) = log_fields(log, poster_name);
    let mut s = owned("banreport_header ");
    push_str(&mut s, user[0].as_str());
    push_str(&mut s, " [");
    push_i64(&mut s, user_id);
    push_str(&mut s, "]\rcommon_userrank: ");
    push_str(&mut s, user[1].as_str());
    push_str(&mut s, "\rcommon_ip: ");
    push_str(&mut s, user[2].as_str());
    push_str(&mut s, "\rbanreport_banner: ");
    push_str(&mut s, poster.as_str());
    push_str(&mut s, "\rbanreport_posted: ");
    push_str(&mut s, posted.as_str());
    push_str(&mut s, "\rbanreport_expires: ");
    push_str(&mut s, ban[0].as_str());
    push_str(&mut s, "\rbanreport_reason: ");
    push_str(&mut s, ban[1].as_str());
    push_str(&mut s, "\rbanreport_ipbanflag: ");
    if ban[2].as_str().is_empty() {
        push_str(&mut s, "false");
    } else {
        push_str(&mut s, "true");
    }
    push_str(&mut s, "\rbanreport_staffnote: ");
    push_str(&mut s, note.as_str());
    s
}

/// The names that shared a banned address, each on a line of its own
/// after ` - `.
pub open spec fn affected_lines(names: Seq<Seq<char>>) -> Seq<char>
    decreases names.len(),
{
    if names.len() == 0 {
        Seq::empty()
    } else {
        affected_lines(names.drop_last()) + "\r - "@ + names.last()
    }
}

/// The report on an address's ban, from the ban row `userid, date_expire,
/// descr`, the staff log row, the poster's name and the names of the users
/// last seen at the address.
pub open spec fn ip_ban_report_spec(
    ip: Seq<char>,
    ban: Seq<Seq<char>>,
    log: Seq<Seq<char>>,
    poster_name: Seq<char>,
    affected: Seq<Seq<char>>,
) -> Seq<char> {
    if ban.len() < 3 {
        no_report()
    } else {
        "banreport_header "@ + ip + "\rbanreport_banner: "@ + log_poster(log, poster_name) + "\rbanreport_posted: "@
            + log_posted(log) + "\rbanreport_expires: "@ + ban[1] + "\rbanreport_reason: "@ + ban[2]
            + "\rbanreport_ipbanflag: true\rbanreport_staffnote: "@ + log_note(log)
            + "\r\rbanreport_affectedusernames:"@ + affected_lines(affected)
    }
}

/// The report on an address's ban (see `ip_ban_report_spec`).
pub fn ip_ban_report(ip: &str, ban: &[String], log: &[String], poster_name: &str, affected: &[String]) -> (r: String)
    ensures
        r@ == ip_ban_report_spec(ip@, strings_view(ban@), strings_view(log@), poster_name@, strings_view(affected@)),
{
    let ghost bv = strings_view(ban@);
    if ban.len() < 3 {
        return owned("holo.cast.banreport.null");
    }
    assert(bv[1] == ban@[1]@ && bv[2] == ban@[2]@);
    let (note, poster, posted) = log_fields(log, poster_name);
    let mut s = owned("banreport_header ");
    push_str(&mut s, ip);
    push_str(&mut s, "\rbanreport_banner: ");
    push_str(&mut s, poster.as_str());
    push_str(&mut s, "\rbanreport_posted: ");
    push_str(&mut s, posted.as_str());
    push_str(&mut s, "\rbanreport_expires: ");
    push_str(&mut s, ban[1].as_str());
    push_str(&mut s, "\rbanreport_reason: ");
    push_str(&mut s, ban[2].as_str());
    push_str(&mut s, "\rbanreport_ipbanflag: true\rbanreport_staffnote: ");
    push_str(&mut s, note.as_str());
    push_str(&mut s, "\r\rbanreport_affectedusernames:");
    let ghost head = s@;
    let ghost av = strings_view(affected@);
    let n = affected.len();
    let mut i: usize = 0;
    while i < n
        invariant
            n == affected@.len(),
            av == strings_view(affected@),
            i <= n,
            s@ == head + affected_lines(av.take(i as int)),
        decreases n - i,
    {
        push_str(&mut s, "\r - ");
        push_str(&mut s, affected[i].as_str());
        assert(av.take(i + 1).drop_last() =~= av.take(i as int));
        assert(av[i as int] == affected@[i as int]@);
        i += 1;
    }
    assert(av.take(n as int) =~= av);
    s
}

/// The text of a string id, or the id where there is none.
pub open spec fn label(c: StringCache, key: Seq<char>) -> Seq<char> {
    if c.entries@.contains_key(key) {
        c.entries@[key]@
    } else {
        key
    }
}

/// A line of a report: the label of `key`, `: ` and the value.
pub open spec fn labelled(c: StringCache, key: Seq<char>, value: Seq<char>) -> Seq<char> {
    label(c, key) + ": "@ + value
}

/// Where a user is: online, in a room (or on the hotel view when the room
/// is 0), or offline.
pub enum UserPresence {
    Online { room_id: i64, room_name: String, room_owner: String },
    Offline,
}

/// The last line of a user's info: where they are when online, when they
/// were last seen otherwise.
pub open spec fn presence_line(c: StringCache, last_access: Seq<char>, p: UserPresence) -> Seq<char> {
    match p {
        UserPresence::Online { room_id, room_name, room_owner } => labelled(
            c,
            "common_location"@,
            if room_id == 0 {
                label(c, "common_hotelview"@)
            } else {
                label(c, "common_room"@) + " '"@ + room_name@ + "' [id: "@ + int_text(room_id as int) + ", "@
                    + labelled(c, "common_owner"@, room_owner@) + "]"@
            },
        ),
        UserPresence::Offline => labelled(c, "common_lastaccess"@, last_access),
    }
}

/// The info on a user for staff, from the row `name, rank, mission,
/// credits, tickets, email, birth, hbirth, ipaddress_last, lastvisit`, with
/// labels from the string table; an access error when the row is short
/// (the user is not found or outranks the viewer).
pub open spec fn user_info_spec(c: StringCache, user_id: i64, row: Seq<Seq<char>>, p: UserPresence) -> Seq<char> {
    if row.len() < 10 {
        label(c, "userinfo_accesserror"@)
    } else {
        label(c, "userinfo_header"@) + "\r"@ + labelled(c, "common_userid"@, int_text(user_id as int)) + "\r"@
            + labelled(c, "common_username"@, row[0]) + "\r"@ + labelled(c, "common_userrank"@, row[1]) + "\r"@
            + labelled(c, "common_usermission"@, row[2]) + "\r"@ + labelled(c, "common_credits"@, row[3]) + "\r"@
            + labelled(c, "common_tickets"@, row[4]) + "\r"@ + labelled(c, "common_hbirth"@, row[7]) + "\r\r"@
            + labelled(c, "common_birth"@, row[6]) + "\r"@ + labelled(c, "common_email"@, row[5]) + "\r"@
            + labelled(c, "common_ip"@, row[8]) + "\r\r"@ + presence_line(c, row[9], p)
    }
}

fn push_labelled(s: &mut String, c: &StringCache, key: &str, value: &str, end: &str)
    ensures
        final(s)@ == old(s)@ + labelled(*c, key@, value@) + end@,
{
    let l = c.get_string(key);
    push_str(s, l.as_str());
    push_str(s, ": ");
    push_str(s, value);
    push_str(s, end);
}

/// The info on a user for staff (see `user_info_spec`).
pub fn user_info_report(c: &StringCache, user_id: i64, row: &[String], p: &UserPresence) -> (r: String)
    ensures
        r@ == user_info_spec(*c, user_id, strings_view(row@), *p),
{
    let ghost rv = strings_view(row@);
    if row.len() < 10 {
        return c.get_string("userinfo_accesserror");
    }
    assert(forall|i: int| 0 <= i < 10 ==> rv[i] == row@[i]@);
    let mut s = c.get_string("userinfo_header");
    push_str(&mut s, "\r");
    let id = crate::text::i64_text(user_id);
    push_labelled(&mut s, c, "common_userid", id.as_str(), "\r");
    push_labelled(&mut s, c, "common_username", row[0].as_str(), "\r");
    push_labelled(&mut s, c, "common_userrank", row[1].as_str(), "\r");
    push_labelled(&mut s, c, "common_usermission", row[2].as_str(), "\r");
    push_labelled(&mut s, c, "common_credits", row[3].as_str(), "\r");
    push_labelled(&mut s, c, "common_tickets", row[4].as_str(), "\r");
    push_labelled(&mut s, c, "common_hbirth", row[7].as_str(), "\r\r");
    push_labelled(&mut s, c, "common_birth", row[6].as_str(), "\r");
    push_labelled(&mut s, c, "common_email", row[5].as_str(), "\r");
    push_labelled(&mut s, c, "common_ip", row[8].as_str(), "\r\r");
    let ghost before = s@;
    match p {
        UserPresence::Online { room_id, room_name, room_owner } => {
            let place = if *room_id == 0 {
                c.get_string("common_hotelview")
            } else {
                let mut w = c.get_string("common_room");
                push_str(&mut w, " '");
                push_str(&mut w, room_name.as_str());
                push_str(&mut w, "' [id: ");
                push_i64(&mut w, *room_id);
                push_str(&mut w, ", ");
                push_labelled(&mut w, c, "common_owner", room_owner.as_str(), "]");
                w
            };
            push_labelled(&mut s, c, "common_location", place.as_str(), "");
        },
        UserPresence::Offline => {
            push_labelled(&mut s, c, "common_lastaccess", row[9].as_str(), "");
        },
    }
    proof {
        reveal_strlit("");
    }
    assert(s@ =~= user_info_spec(*c, user_id, rv, *p));
    s
}

// ---------------------------------------------------------------- ban expiry

/// A calendar date and time of day, as `chrono` gives its parts: the
/// nanosecond is 1_000_000_000 or more during a leap second.
#[derive(Debug, Clone, Copy, PartialEq, Eq, Structural)]
pub struct DateTimeParts {
    pub year: i32,
    pub month: u32,
    pub day: u32,
    pub hour: u32,
    pub minute: u32,
    pub second: u32,
    pub nanosecond: u32,
}

/// What `chrono::NaiveDateTime::parse_from_str` makes of a text and a
/// format: the date and time it reads, or `None` when it fails.
pub uninterp spec fn chrono_parse_datetime(text: Seq<char>, fmt: Seq<char>) -> Option<DateTimeParts>;

/// Reads a date and time with `chrono::NaiveDateTime::parse_from_str`; the
/// result is its parts, named by `chrono_parse_datetime`.
#[verifier::external_body]
fn parse_datetime(text: &str, fmt: &str) -> (r: Option<DateTimeParts>)
    ensures
        r == chrono_parse_datetime(text@, fmt@),
{
    match chrono::NaiveDateTime::parse_from_str(text, fmt) {
        Ok(t) => Some(DateTimeParts {
            year: t.year(),
            month: t.month(),
            day: t.day(),
            hour: t.hour(),
            minute: t.minute(),
            second: t.second(),
            nanosecond: t.nanosecond(),
        }),
        Err(_) => None,
    }
}

/// Whether date and time `a` comes after `b`: by year, month, day, hour,
/// minute, second and nanosecond, in that order.
pub open spec fn later_than(a: DateTimeParts, b: DateTimeParts) -> bool {
    if a.year != b.year {
        a.year > b.year
    } else if a.month != b.month {
        a.month > b.month
    } else if a.day != b.day {
        a.day > b.day
    } else if a.hour != b.hour {
        a.hour > b.hour
    } else if a.minute != b.minute {
        a.minute > b.minute
    } else if a.second != b.second {
        a.second > b.second
    } else {
        a.nanosecond > b.nanosecond
    }
}

/// Whether a ban whose expiry was read as `expiry` still runs at `now`: it
/// was read and ends after now.
pub open spec fn ban_pending_spec(expiry: Option<DateTimeParts>, now: DateTimeParts) -> bool {
    match expiry {
        Some(t) => later_than(t, now),
        None => false,
    }
}

/// Whether a ban whose expiry was read as `expiry` still runs at `now`
/// (see `ban_pending_spec`).
pub fn ban_pending(expiry: Option<DateTimeParts>, now: DateTimeParts) -> (r: bool)
    ensures
        r == ban_pending_spec(expiry, now),
{
    match expiry {
        None => false,
        Some(t) => {
            if t.year != now.year {
                t.year > now.year
            } else if t.month != now.month {
                t.month > now.month
            } else if t.day != now.day {
                t.day > now.day
            } else if t.hour != now.hour {
                t.hour > now.hour
            } else if t.minute != now.minute {
                t.minute > now.minute
            } else if t.second != now.second {
                t.second > now.second
            } else {
                t.nanosecond > now.nanosecond
            }
        },
    }
}

/// How a ban's expiry is stored.
pub open spec fn ban_expiry_format() -> Seq<char> {
    "%Y-%m-%d %H:%M:%S"@
}

/// Whether a ban with this stored expiry still runs at `now`: the expiry
/// is read as `%Y-%m-%d %H:%M:%S`, and a text that does not read ends
/// nothing.
pub fn is_pending_ban(expires_at: &str, now: DateTimeParts) -> (r: bool)
    ensures
        r == ban_pending_spec(chrono_parse_datetime(expires_at@, ban_expiry_format()), now),
{
    let expiry = parse_datetime(expires_at, "%Y-%m-%d %H:%M:%S");
    proof {
        reveal_strlit("%Y-%m-%d %H:%M:%S");
    }
    ban_pending(expiry, now)
}

/// What a stored ban means at `now`: none, still running, or run out (and
/// to be lifted).
#[derive(Debug, Clone, Copy, PartialEq, Eq, Structural)]
pub enum BanLookup {
    NotBanned,
    Banned,
    Expired,
}

/// What a user's or an address's ban row means at `now`: no row is no ban;
/// a row whose expiry (read as `%Y-%m-%d %H:%M:%S`) lies after now is a
/// running ban; any other row has run out.
pub open spec fn ban_lookup_spec(row_exists: bool, expires_at: Seq<char>, now: DateTimeParts) -> BanLookup {
    if !row_exists {
        BanLookup::NotBanned
    } else if ban_pending_spec(chrono_parse_datetime(expires_at, ban_expiry_format()), now) {
        BanLookup::Banned
    } else {
        BanLookup::Expired
    }
}

/// What a user's or an address's ban row means at `now` (see
/// `ban_lookup_spec`).
pub fn ban_lookup(row_exists: bool, expires_at: &str, now: DateTimeParts) -> (r: BanLookup)
    ensures
        r == ban_lookup_spec(row_exists, expires_at@, now),
{
    if !row_exists {
        BanLookup::NotBanned
    } else if is_pending_ban(expires_at, now) {
        BanLookup::Banned
    } else {
        BanLookup::Expired
    }
}

/// The expiry of a room ban as read: in `%Y-%m-%d %H:%M:%S`, or failing
/// that in `%m/%d/%Y %H:%M:%S`.
pub open spec fn room_ban_expiry(ban_expire: Seq<char>) -> Option<DateTimeParts> {
    match chrono_parse_datetime(ban_expire, "%Y-%m-%d %H:%M:%S"@) {
        Some(t) => Some(t),
        None => chrono_parse_datetime(ban_expire, "%m/%d/%Y %H:%M:%S"@),
    }
}

/// Whether a room ban with this stored expiry still runs at `now` (see
/// `room_ban_expiry`); an expiry that reads in neither form ends nothing.
pub fn room_ban_pending(ban_expire: &str, now: DateTimeParts) -> (r: bool)
    ensures
        r == ban_pending_spec(room_ban_expiry(ban_expire@), now),
{
    let first = parse_datetime(ban_expire, "%Y-%m-%d %H:%M:%S");
    let expiry = match first {
        Some(t) => Some(t),
        None => parse_datetime(ban_expire, "%m/%d/%Y %H:%M:%S"),
    };
    proof {
        reveal_strlit("%Y-%m-%d %H:%M:%S");
        reveal_strlit("%m/%d/%Y %H:%M:%S");
    }
    ban_pending(expiry, now)
}

/// The room-ban fact the room entry decides on: `None` without a ban row,
/// else whether the ban still runs at `now`.
pub fn room_ban_state(row_exists: bool, ban_expire: &str, now: DateTimeParts) -> (r: Option<bool>)
    ensures
        r == (if row_exists { Some(ban_pending_spec(room_ban_expiry(ban_expire@), now)) } else { None }),
{
    if row_exists {
        Some(room_ban_pending(ban_expire, now))
    } else {
        None
    }
}

} // verus!
