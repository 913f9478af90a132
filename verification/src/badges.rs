//! Choosing which badges to wear: the request lists slots and badges, and
//! the room is told which badge sits in which slot.
use vstd::prelude::*;
use vstd::utf8::{decode_utf8, encode_utf8, is_char_boundary};
use vstd::string::StringSliceAdditionalSpecFns;

use crate::codec::{vl64_decode_spec, vl64_decodable, decode_vl64, lemma_vl64_decoded_range};
use crate::game_settings::{short_length, short_length_exec, lemma_two_bytes};
use crate::navigator::{vl, vl_ok, push_vl};
use crate::session::{after_header, packet_body};
use crate::strings::strings_view;
use crate::text::{push_char, push_str, push_i64, int_text, parse_int_spec, parse_i64};

verus! {

broadcast use vstd::utf8::encode_utf8_valid_utf8, vstd::utf8::encode_utf8_decode_utf8;

/// What reading one slot does: stop, fault (a slice would cut a character,
/// or a number cannot be decoded at all), or go on with the bytes after it
/// and, when the badge name is not empty, the slot and badge.
pub enum BadgeStep {
    Stop,
    Fault,
    Next(Seq<u8>, Option<(int, Seq<char>)>),
}

/// Reads one slot: a VL64 slot number, then a B64-length-prefixed badge.
#[verifier::opaque]
pub open spec fn badge_step(r: Seq<u8>) -> BadgeStep {
    if !vl64_decodable(r) {
        BadgeStep::Fault
    } else {
        match vl64_decode_spec(r) {
            Err(_) => BadgeStep::Stop,
            Ok((slot, used)) => if !is_char_boundary(r, used) {
                BadgeStep::Fault
            } else {
                let r1 = r.subrange(used, r.len() as int);
                if r1.len() < 2 {
                    BadgeStep::Stop
                } else if !is_char_boundary(r1, 2) {
                    BadgeStep::Fault
                } else {
                    let bl = short_length(r1.subrange(0, 2));
                    if r1.len() < 2 + bl {
                        BadgeStep::Stop
                    } else {
                        let r2 = r1.subrange(2, r1.len() as int);
                        if !is_char_boundary(r2, bl) {
                            BadgeStep::Fault
                        } else {
                            BadgeStep::Next(
                                r2.subrange(bl, r2.len() as int),
                                if bl > 0 {
                                    Some((slot, decode_utf8(r2.subrange(0, bl))))
                                } else {
                                    None
                                },
                            )
                        }
                    }
                }
            },
        }
    }
}

/// Each step goes forward: what is left is shorter.
pub proof fn lemma_badge_step_shortens(r: Seq<u8>)
    ensures
        badge_step(r) matches BadgeStep::Next(r2, _) ==> r2.len() < r.len(),
{
    reveal(badge_step);
    if vl64_decodable(r) && vl64_decode_spec(r) is Ok {
        lemma_vl64_decoded_range(r);
        let used = vl64_decode_spec(r)->Ok_0.1;
        let r1 = r.subrange(used, r.len() as int);
        if r1.len() >= 2 {
            lemma_two_bytes(r1.subrange(0, 2));
        }
    }
}

/// The slots and badges read from `r` until the bytes run out; `None` when
/// reading faults.
pub open spec fn badge_choices(r: Seq<u8>) -> Option<Seq<(int, Seq<char>)>>
    decreases r.len(),
{
    if r.len() == 0 {
        Some(Seq::empty())
    } else {
        match badge_step(r) {
            BadgeStep::Stop => Some(Seq::empty()),
            BadgeStep::Fault => None,
            BadgeStep::Next(r2, c) => {
                proof {
                    lemma_badge_step_shortens(r);
                }
                match badge_choices(r2) {
                    None => None,
                    Some(rest) => Some(
                        match c {
                            Some(x) => seq![x] + rest,
                            None => rest,
                        },
                    ),
                }
            },
        }
    }
}

/// The slots and badges of a request as values.
pub open spec fn choices_view(v: Seq<(i32, String)>) -> Seq<(int, Seq<char>)> {
    v.map_values(|x: (i32, String)| (x.0 as int, x.1@))
}

fn badge_step_exec<'a>(r: &'a str) -> (out: (bool, &'a str, Option<(i32, String)>))
    requires
        r.spec_bytes().len() > 0,
        !(badge_step(r.spec_bytes()) is Fault),
    ensures
        match badge_step(r.spec_bytes()) {
            BadgeStep::Stop => !out.0,
            BadgeStep::Next(r2, c) => out.0 && out.1.spec_bytes() == r2 && match c {
                Some((s, b)) => out.2 matches Some(x) && x.0 as int == s && x.1@ == b,
                None => out.2 is None,
            },
            BadgeStep::Fault => false,
        },
{
    reveal(badge_step);
    let ghost rb = r.spec_bytes();
    let (slot, used) = match decode_vl64(r) {
        Ok(x) => x,
        Err(_) => {
            return (false, r, None);
        },
    };
    proof {
        lemma_vl64_decoded_range(rb);
    }
    if !r.is_char_boundary(used) {
        return (false, r, None);
    }
    let (_, r1) = r.split_at(used);
    if r1.as_bytes().len() < 2 {
        return (false, r, None);
    }
    if !r1.is_char_boundary(2) {
        return (false, r, None);
    }
    let bl = short_length_exec(r1);
    if r1.as_bytes().len() < 2 + bl {
        return (false, r, None);
    }
    let (_, r2) = r1.split_at(2);
    if !r2.is_char_boundary(bl) {
        return (false, r, None);
    }
    let (badge, rest) = r2.split_at(bl);
    assert(badge@ == decode_utf8(r2.spec_bytes().subrange(0, bl as int)));
    if bl > 0 {
        (true, rest, Some((slot, crate::text::owned(badge))))
    } else {
        (true, rest, None)
    }
}

/// The slots and badges that a request to wear badges lists, in order (see
/// `badge_choices`, over the bytes after the header); entries with an empty
/// badge name are skipped.
pub fn parse_badge_choices(packet: &str) -> (r: Vec<(i32, String)>)
    requires
        badge_choices(encode_utf8(after_header(packet@))) is Some,
    ensures
        Some(choices_view(r@)) == badge_choices(encode_utf8(after_header(packet@))),
{
    let body = packet_body(packet);
    let ghost all = body.spec_bytes();
    let mut rest = body;
    let mut out: Vec<(i32, String)> = Vec::new();
    loop
        invariant_except_break
            badge_choices(all) is Some,
            badge_choices(rest.spec_bytes()) is Some,
            badge_choices(all)->0 == choices_view(out@) + badge_choices(rest.spec_bytes())->0,
        ensures
            badge_choices(all)->0 == choices_view(out@),
        decreases rest.spec_bytes().len(),
    {
        let ghost rb = rest.spec_bytes();
        if rest.as_bytes().len() == 0 {
            assert(choices_view(out@) + Seq::<(int, Seq<char>)>::empty() =~= choices_view(out@));
            break;
        }
        proof {
            lemma_badge_step_shortens(rb);
        }
        let ghost before = out@;
        let (go, next, choice) = badge_step_exec(rest);
        if !go {
            assert(choices_view(out@) + Seq::<(int, Seq<char>)>::empty() =~= choices_view(out@));
            break;
        }
        match choice {
            Some(x) => {
                out.push(x);
                assert(choices_view(out@) =~= choices_view(before) + seq![(x.0 as int, x.1@)]);
            },
            None => {},
        }
        rest = next;
        assert(choices_view(out@) + badge_choices(rest.spec_bytes())->0 =~= choices_view(before) + badge_choices(rb)->0);
    }
    out
}

/// One row of the badges a user owns: badge name and slot.
pub open spec fn notify_row(row: Seq<Seq<char>>) -> Seq<char> {
    if row.len() < 2 {
        Seq::empty()
    } else {
        let slot = match parse_int_spec(row[1], true, i64::MIN as int, i64::MAX as int) {
            Some(v) => v,
            None => 0,
        };
        if slot > 0 {
            vl(slot) + row[0] + seq!['\u{2}']
        } else {
            Seq::empty()
        }
    }
}

/// The worn badges of the rows, in order.
pub open spec fn notify_rows(rows: Seq<Seq<Seq<char>>>) -> Seq<char>
    decreases rows.len(),
{
    if rows.len() == 0 {
        Seq::empty()
    } else {
        notify_rows(rows.drop_last()) + notify_row(rows.last())
    }
}

/// The slot of a badge row, as the room packet reads it.
pub open spec fn row_slot(row: Seq<Seq<char>>) -> int {
    if row.len() < 2 {
        0
    } else {
        match parse_int_spec(row[1], true, i64::MIN as int, i64::MAX as int) {
            Some(v) => v,
            None => 0,
        }
    }
}

/// The rows as text.
pub open spec fn rows_view(rows: Seq<Vec<String>>) -> Seq<Seq<Seq<char>>> {
    rows.map_values(|r: Vec<String>| strings_view(r@))
}

/// What the room is told when a user changes the badges they wear: the
/// user, the number of badges just placed, then each worn badge (slot above
/// 0) of the user's badge rows `badge, slot`, in order.
pub fn badge_notify_packet(user_id: i64, enabled: i32, rows: &Vec<Vec<String>>) -> (r: String)
    requires
        enabled != i32::MIN,
        forall|i: int| 0 <= i < rows@.len() ==> vl_ok(#[trigger] row_slot(strings_view(rows@[i]@))),
    ensures
        r@ == int_text(user_id as int) + seq!['\u{2}'] + vl(enabled as int) + notify_rows(rows_view(rows@)),
{
    let mut s = String::new();
    push_i64(&mut s, user_id);
    push_char(&mut s, '\u{2}');
    push_vl(&mut s, enabled as i64);
    let ghost head = s@;
    let ghost rv = rows_view(rows@);
    let n = rows.len();
    let mut i: usize = 0;
    while i < n
        invariant
            n == rows@.len(),
            rv == rows_view(rows@),
            i <= n,
            forall|j: int| 0 <= j < rows@.len() ==> vl_ok(#[trigger] row_slot(strings_view(rows@[j]@))),
            s@ == head + notify_rows(rv.take(i as int)),
        decreases n - i,
    {
        let row = &rows[i];
        let ghost before = s@;
        assert(rv[i as int] == strings_view(row@));
        if row.len() >= 2 {
            assert(strings_view(row@)[1] == row@[1]@);
            assert(strings_view(row@)[0] == row@[0]@);
            let slot = match parse_i64(row[1].as_str()) {
                Some(v) => v,
                None => 0,
            };
            if slot > 0 {
                assert(vl_ok(row_slot(strings_view(rows@[i as int]@))));
                push_vl(&mut s, slot);
                push_str(&mut s, row[0].as_str());
                push_char(&mut s, '\u{2}');
            }
        }
        assert(s@ =~= before + notify_row(rv[i as int]));
        assert(rv.take(i + 1).drop_last() =~= rv.take(i as int));
        i += 1;
    }
    assert(rv.take(n as int) =~= rv);
    s
}

} // verus!
