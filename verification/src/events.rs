//! Room events: the list of a category's events and the details of one
//! event, as the navigator shows them.
use vstd::prelude::*;

use crate::codec::{push_vl64, vl64_text};
use crate::text::{int_text, parse_i32, parse_int_spec, push_char, push_i64, push_str};

verus! {

/// An event as stored: its room, the name of its host when the host is
/// online (`None` otherwise), and its name, description and date.
#[derive(Debug, Clone)]
pub struct EventRow {
    pub room_id: i64,
    pub host: Option<String>,
    pub name: String,
    pub description: String,
    pub date: String,
}

/// An event in a category's list: room, host, name, description and date,
/// each followed by `\u{2}`.
pub open spec fn event_entry(room_id: i64, host: Seq<char>, e: EventRow) -> Seq<char> {
    int_text(room_id as int) + seq!['\u{2}'] + host + seq!['\u{2}'] + e.name@ + seq!['\u{2}']
        + e.description@ + seq!['\u{2}'] + e.date@ + seq!['\u{2}']
}

/// The number of events among the first `n` rows whose host is online, and
/// their text; the others are left out.
pub open spec fn listed_events(rows: Seq<EventRow>, n: int) -> (int, Seq<char>)
    decreases n,
{
    if n <= 0 {
        (0, Seq::empty())
    } else {
        let prev = listed_events(rows, n - 1);
        match rows[n - 1].host {
            Some(h) => (prev.0 + 1, prev.1 + event_entry(rows[n - 1].room_id, h@, rows[n - 1])),
            None => prev,
        }
    }
}

proof fn lemma_listed_count(rows: Seq<EventRow>, n: int)
    requires
        0 <= n <= rows.len(),
    ensures
        0 <= listed_events(rows, n).0 <= n,
    decreases n,
{
    if n > 0 {
        lemma_listed_count(rows, n - 1);
    }
}

/// The events of a category: how many are listed, then each of them (see
/// `listed_events`).
pub fn get_events(rows: &[EventRow]) -> (r: String)
    requires
        rows@.len() <= i32::MAX,
    ensures
        r@ == vl64_text(listed_events(rows@, rows@.len() as int).0) + listed_events(rows@, rows@.len() as int).1,
{
    let mut count: i32 = 0;
    let mut body = String::new();
    let mut i: usize = 0;
    while i < rows.len()
        invariant
            0 <= i <= rows@.len(),
            rows@.len() <= i32::MAX,
            count as int == listed_events(rows@, i as int).0,
            body@ == listed_events(rows@, i as int).1,
        decreases rows.len() - i,
    {
        proof {
            lemma_listed_count(rows@, i as int);
        }
        let e = &rows[i];
        match &e.host {
            Some(h) => {
                let ghost before = body@;
                push_i64(&mut body, e.room_id);
                push_char(&mut body, '\u{2}');
                push_str(&mut body, h.as_str());
                push_char(&mut body, '\u{2}');
                push_str(&mut body, e.name.as_str());
                push_char(&mut body, '\u{2}');
                push_str(&mut body, e.description.as_str());
                push_char(&mut body, '\u{2}');
                push_str(&mut body, e.date.as_str());
                push_char(&mut body, '\u{2}');
                assert(body@ =~= before + event_entry(e.room_id, h@, *e));
                count = count + 1;
            },
            None => {},
        }
        i += 1;
    }
    proof {
        lemma_listed_count(rows@, rows@.len() as int);
    }
    let mut s = String::new();
    push_vl64(&mut s, count);
    push_str(&mut s, body.as_str());
    s
}

/// The category number of an event as stored: its text read as a number,
/// 0 when it is not one.
pub open spec fn category_value(category: Seq<char>) -> int {
    match parse_int_spec(category, true, i32::MIN as int, i32::MAX as int) {
        Some(v) => v,
        None => 0,
    }
}

/// The details of an event: host id and name, room, the category as VL64
/// followed by the name, then description and date, each field closed by
/// `\u{2}`.
pub open spec fn event_details_spec(
    host_id: i64,
    host: Seq<char>,
    room: Seq<char>,
    category: Seq<char>,
    name: Seq<char>,
    description: Seq<char>,
    date: Seq<char>,
) -> Seq<char> {
    int_text(host_id as int) + seq!['\u{2}'] + host + seq!['\u{2}'] + room + seq!['\u{2}'] + vl64_text(
        category_value(category),
    ) + name + seq!['\u{2}'] + description + seq!['\u{2}'] + date + seq!['\u{2}']
}

/// The details of an event (see `event_details_spec`).
pub fn get_event(
    host_id: i64,
    host: &str,
    room: &str,
    category: &str,
    name: &str,
    description: &str,
    date: &str,
) -> (r: String)
    requires
        category_value(category@) != i32::MIN,
    ensures
        r@ == event_details_spec(host_id, host@, room@, category@, name@, description@, date@),
{
    let c: i32 = match parse_i32(category) {
        Some(v) => v,
        None => 0,
    };
    let mut s = String::new();
    push_i64(&mut s, host_id);
    push_char(&mut s, '\u{2}');
    push_str(&mut s, host);
    push_char(&mut s, '\u{2}');
    push_str(&mut s, room);
    push_char(&mut s, '\u{2}');
    push_vl64(&mut s, c);
    push_str(&mut s, name);
    push_char(&mut s, '\u{2}');
    push_str(&mut s, description);
    push_char(&mut s, '\u{2}');
    push_str(&mut s, date);
    push_char(&mut s, '\u{2}');
    assert(s@ =~= event_details_spec(host_id, host@, room@, category@, name@, description@, date@));
    s
}

} // verus!
