//! Answers to room polls: the poll and question, then either a text or a
//! list of chosen answers.
use vstd::prelude::*;
use vstd::utf8::{decode_utf8, is_char_boundary};
use vstd::string::StringSliceAdditionalSpecFns;

use crate::codec::{vl64_decode_spec, vl64_decodable, decode_vl64, lemma_vl64_decoded_range};
use crate::game_settings::{short_length, short_length_exec};
use crate::strings::{escape_spec, stripslash, strings_view};
use crate::codec::{push_vl64, vl64_text};
use crate::moodlight::i32_or;
use crate::navigator::{vl, vl_ok, push_vl};
use crate::text::{owned, push_char, push_str, trunc_usize};

verus! {

broadcast use vstd::utf8::encode_utf8_valid_utf8, vstd::utf8::encode_utf8_decode_utf8;

/// What reading a VL64 number off the front of `b` gives: `None` when it
/// faults (the number cannot be decoded at all, or its bytes end inside a
/// character), else the number, if it decodes, and the bytes after it.
pub open spec fn vl64_take_spec(b: Seq<u8>) -> Option<Option<(int, Seq<u8>)>> {
    if !vl64_decodable(b) {
        None
    } else {
        match vl64_decode_spec(b) {
            Err(_) => Some(None),
            Ok((v, used)) => if !is_char_boundary(b, used) {
                None
            } else {
                Some(Some((v, b.subrange(used, b.len() as int))))
            },
        }
    }
}

/// Reads a VL64 number off the front of a text (see `vl64_take_spec`): the
/// number and the text after it, or `None` when it does not decode.
pub fn take_vl64<'a>(s: &'a str) -> (r: Option<(i32, &'a str)>)
    requires
        vl64_take_spec(s.spec_bytes()) is Some,
    ensures
        match vl64_take_spec(s.spec_bytes())->0 {
            Some((v, rest)) => r matches Some(x) && x.0 as int == v && x.1.spec_bytes() == rest,
            None => r is None,
        },
{
    let ghost b = s.spec_bytes();
    match decode_vl64(s) {
        Err(_) => None,
        Ok((v, used)) => {
            proof {
                lemma_vl64_decoded_range(b);
            }
            if !s.is_char_boundary(used) {
                return None;
            }
            let (_, rest) = s.split_at(used);
            Some((v, rest))
        },
    }
}

/// A written answer: a B64 length and that many bytes, escaped for the
/// query. `None` inside when the bytes run out; `None` outside when a
/// slice would cut a character.
pub open spec fn text_answer_spec(b: Seq<u8>) -> Option<Option<Seq<char>>> {
    if b.len() < 2 {
        Some(None)
    } else if !is_char_boundary(b, 2) {
        None
    } else {
        let n = short_length(b.subrange(0, 2));
        if b.len() < 2 + n {
            Some(None)
        } else {
            let rest = b.subrange(2, b.len() as int);
            if !is_char_boundary(rest, n) {
                None
            } else {
                Some(Some(escape_spec(decode_utf8(rest.subrange(0, n)))))
            }
        }
    }
}

/// A written answer (see `text_answer_spec`).
pub fn text_answer(s: &str) -> (r: Option<String>)
    requires
        text_answer_spec(s.spec_bytes()) is Some,
    ensures
        match text_answer_spec(s.spec_bytes())->0 {
            Some(t) => r matches Some(x) && x@ == t,
            None => r is None,
        },
{
    if s.as_bytes().len() < 2 {
        return None;
    }
    if !s.is_char_boundary(2) {
        return None;
    }
    let n = short_length_exec(s);
    if s.as_bytes().len() < 2 + n {
        return None;
    }
    let (_, rest) = s.split_at(2);
    if !rest.is_char_boundary(n) {
        return None;
    }
    let (answer, _) = rest.split_at(n);
    assert(answer@ == decode_utf8(rest.spec_bytes().subrange(0, n as int)));
    Some(stripslash(answer))
}

/// Chosen answers: up to `k` VL64 numbers, stopping at the first that does
/// not decode; `None` when reading faults.
pub open spec fn chosen_answers(b: Seq<u8>, k: nat) -> Option<Seq<int>>
    decreases k,
{
    if k == 0 {
        Some(Seq::empty())
    } else {
        match vl64_take_spec(b) {
            None => None,
            Some(None) => Some(Seq::empty()),
            Some(Some((v, rest))) => match chosen_answers(rest, (k - 1) as nat) {
                None => None,
                Some(tail) => Some(seq![v] + tail),
            },
        }
    }
}

/// The chosen answers of a poll answer: a VL64 count, then that many VL64
/// answers at most; no answers when the count does not decode.
pub open spec fn choices_spec(b: Seq<u8>) -> Option<Seq<int>> {
    match vl64_take_spec(b) {
        None => None,
        Some(None) => Some(Seq::empty()),
        Some(Some((count, rest))) => chosen_answers(rest, if count > 0 { count as nat } else { 0 }),
    }
}

proof fn lemma_chosen_unfold(b: Seq<u8>, k: nat)
    ensures
        k == 0 ==> chosen_answers(b, k) == Some(Seq::<int>::empty()),
        k > 0 ==> chosen_answers(b, k) == match vl64_take_spec(b) {
            None => None,
            Some(None) => Some(Seq::<int>::empty()),
            Some(Some((v, rest))) => match chosen_answers(rest, (k - 1) as nat) {
                None => None,
                Some(tail) => Some(seq![v] + tail),
            },
        },
{
}

/// The chosen answers of a poll answer (see `choices_spec`).
pub fn chosen_answer_ids(s: &str) -> (r: Vec<i32>)
    requires
        choices_spec(s.spec_bytes()) is Some,
    ensures
        r@.map_values(|x: i32| x as int) == choices_spec(s.spec_bytes())->0,
{
    let (count, first) = match take_vl64(s) {
        Some(x) => x,
        None => {
            let r: Vec<i32> = Vec::new();
            assert(r@.map_values(|x: i32| x as int) =~= Seq::<int>::empty());
            return r;
        },
    };
    let k: u32 = if count > 0 { count as u32 } else { 0 };
    let ghost total = k as nat;
    let ghost b0 = first.spec_bytes();
    let mut rest = first;
    let mut out: Vec<i32> = Vec::new();
    let mut i: u32 = 0;
    loop
        invariant_except_break
            i <= k,
            total == k as nat,
            chosen_answers(b0, total) is Some,
            chosen_answers(rest.spec_bytes(), (total - i) as nat) is Some,
            chosen_answers(b0, total)->0 == out@.map_values(|x: i32| x as int) + chosen_answers(
                rest.spec_bytes(),
                (total - i) as nat,
            )->0,
        ensures
            chosen_answers(b0, total)->0 == out@.map_values(|x: i32| x as int),
        decreases k - i,
    {
        let ghost rb = rest.spec_bytes();
        proof {
            lemma_chosen_unfold(rb, (total - i) as nat);
        }
        if i >= k {
            assert(out@.map_values(|x: i32| x as int) + Seq::<int>::empty() =~= out@.map_values(|x: i32| x as int));
            break;
        }
        let ghost before = out@;
        match take_vl64(rest) {
            None => {
                assert(out@.map_values(|x: i32| x as int) + Seq::<int>::empty() =~= out@.map_values(|x: i32| x as int));
                break;
            },
            Some((v, next)) => {
                out.push(v);
                assert(out@.map_values(|x: i32| x as int) =~= before.map_values(|x: i32| x as int) + seq![v as int]);
                rest = next;
                i += 1;
            },
        }
    }
    out
}

// ---------------------------------------------------------------- showing a poll

/// A question of a poll: its row `qid, question, type, min, max` and its
/// answers in order.
#[derive(Debug, Clone)]
pub struct PollQuestion {
    pub row: Vec<String>,
    pub answers: Vec<String>,
}

/// The answers of a question, each followed by `\u{2}`.
pub open spec fn answers_text(answers: Seq<Seq<char>>) -> Seq<char>
    decreases answers.len(),
{
    if answers.len() == 0 {
        Seq::empty()
    } else {
        answers_text(answers.drop_last()) + answers.last() + seq!['\u{2}']
    }
}

/// The part of a poll packet for question number `k` (from 1): its id, `k`,
/// its type, its text, the number of answers, the minimum and maximum and
/// the answers; nothing for a row too short to read.
pub open spec fn question_text(q: PollQuestion, k: int) -> Seq<char> {
    let r = strings_view(q.row@);
    if r.len() < 5 {
        Seq::empty()
    } else {
        question_head(r, q.answers@.len() as int, k) + answers_text(strings_view(q.answers@))
    }
}

/// The start of a question's part: its id, number, type, text, number of
/// answers, minimum and maximum.
pub open spec fn question_head(r: Seq<Seq<char>>, answer_count: int, k: int) -> Seq<char> {
    vl(crate::guestrooms::i64_or(r[0], 0)) + vl(k) + vl64_text(i32_or(r[2], 0)) + r[1] + seq!['\u{2}'] + vl(answer_count)
        + vl64_text(i32_or(r[3], 0)) + vl64_text(i32_or(r[4], 0))
}

/// The questions of a poll, numbered from 1 in order.
pub open spec fn questions_text(qs: Seq<PollQuestion>) -> Seq<char>
    decreases qs.len(),
{
    if qs.len() == 0 {
        Seq::empty()
    } else {
        questions_text(qs.drop_last()) + question_text(qs.last(), qs.len() as int)
    }
}

/// The packet that shows a room's poll, from its row `pid, title, thanks`
/// and its questions: `D}`, the poll, title, thanks, the number of
/// questions and the questions; empty when the row is short.
pub open spec fn poll_packet_spec(poll: Seq<Seq<char>>, qs: Seq<PollQuestion>) -> Seq<char> {
    if poll.len() < 3 {
        Seq::empty()
    } else {
        "D}"@ + vl(crate::guestrooms::i64_or(poll[0], 0)) + poll[1] + seq!['\u{2}'] + poll[2] + seq!['\u{2}'] + vl(
            qs.len() as int,
        ) + questions_text(qs)
    }
}

/// Every number a question writes can be written.
pub open spec fn question_fits(q: PollQuestion, k: int) -> bool {
    let r = strings_view(q.row@);
    r.len() >= 5 ==> {
        &&& vl_ok(crate::guestrooms::i64_or(r[0], 0))
        &&& vl_ok(k)
        &&& i32_or(r[2], 0) != i32::MIN as int
        &&& vl_ok(q.answers@.len() as int)
        &&& i32_or(r[3], 0) != i32::MIN as int
        &&& i32_or(r[4], 0) != i32::MIN as int
    }
}

fn push_question_head(s: &mut String, row: &Vec<String>, answer_count: usize, k: usize)
    requires
        row@.len() >= 5,
        vl_ok(crate::guestrooms::i64_or(strings_view(row@)[0], 0)),
        vl_ok(k as int),
        vl_ok(answer_count as int),
        i32_or(strings_view(row@)[2], 0) != i32::MIN as int,
        i32_or(strings_view(row@)[3], 0) != i32::MIN as int,
        i32_or(strings_view(row@)[4], 0) != i32::MIN as int,
    ensures
        final(s)@ == old(s)@ + question_head(strings_view(row@), answer_count as int, k as int),
{
    let ghost r = strings_view(row@);
    let ghost before = s@;
    assert(forall|i: int| 0 <= i < 5 ==> r[i] == row@[i]@);
    let qid = match crate::text::parse_i64(row[0].as_str()) {
        Some(v) => v,
        None => 0,
    };
    push_vl(s, qid);
    push_vl64(s, trunc_usize(k));
    push_vl64(s, i32_field(&row[2]));
    push_str(s, row[1].as_str());
    push_char(s, '\u{2}');
    push_vl64(s, trunc_usize(answer_count));
    push_vl64(s, i32_field(&row[3]));
    push_vl64(s, i32_field(&row[4]));
    assert(s@ =~= before + question_head(r, answer_count as int, k as int));
}

fn push_answers(s: &mut String, answers: &Vec<String>)
    ensures
        final(s)@ == old(s)@ + answers_text(strings_view(answers@)),
{
    let ghost head = s@;
    let ghost av = strings_view(answers@);
    let n = answers.len();
    let mut i: usize = 0;
    while i < n
        invariant
            n == answers@.len(),
            av == strings_view(answers@),
            i <= n,
            s@ == head + answers_text(av.take(i as int)),
        decreases n - i,
    {
        push_str(s, answers[i].as_str());
        push_char(s, '\u{2}');
        assert(av.take(i + 1).drop_last() =~= av.take(i as int));
        assert(av[i as int] == answers@[i as int]@);
        i += 1;
    }
    assert(av.take(n as int) =~= av);
}

fn push_question(s: &mut String, q: &PollQuestion, k: usize)
    requires
        question_fits(*q, k as int),
    ensures
        final(s)@ == old(s)@ + question_text(*q, k as int),
{
    if q.row.len() < 5 {
        return;
    }
    let ghost before = s@;
    push_question_head(s, &q.row, q.answers.len(), k);
    push_answers(s, &q.answers);
    assert(s@ =~= before + question_text(*q, k as int));
}

fn i32_field(s: &String) -> (r: i32)
    ensures
        r as int == i32_or(s@, 0),
{
    match crate::text::parse_i32(s.as_str()) {
        Some(v) => v,
        None => 0,
    }
}

/// The packet that shows a room's poll (see `poll_packet_spec`).
pub fn poll_packet(poll: &[String], questions: &Vec<PollQuestion>) -> (r: String)
    requires
        strings_view(poll@).len() >= 3 ==> vl_ok(crate::guestrooms::i64_or(strings_view(poll@)[0], 0)),
        vl_ok(questions@.len() as int),
        questions@.len() < usize::MAX,
        forall|i: int| 0 <= i < questions@.len() ==> question_fits(#[trigger] questions@[i], i + 1),
    ensures
        r@ == poll_packet_spec(strings_view(poll@), questions@),
{
    let ghost pv = strings_view(poll@);
    if poll.len() < 3 {
        return String::new();
    }
    assert(pv[0] == poll@[0]@ && pv[1] == poll@[1]@ && pv[2] == poll@[2]@);
    let mut s = owned("D}");
    let pid = match crate::text::parse_i64(poll[0].as_str()) {
        Some(v) => v,
        None => 0,
    };
    push_vl(&mut s, pid);
    push_str(&mut s, poll[1].as_str());
    push_char(&mut s, '\u{2}');
    push_str(&mut s, poll[2].as_str());
    push_char(&mut s, '\u{2}');
    push_vl64(&mut s, trunc_usize(questions.len()));
    let ghost head = s@;
    let n = questions.len();
    let mut i: usize = 0;
    while i < n
        invariant
            n == questions@.len(),
            n < usize::MAX,
            i <= n,
            forall|j: int| 0 <= j < questions@.len() ==> question_fits(#[trigger] questions@[j], j + 1),
            s@ == head + questions_text(questions@.take(i as int)),
        decreases n - i,
    {
        assert(question_fits(questions@[i as int], i + 1));
        push_question(&mut s, &questions[i], i + 1);
        assert(questions@.take(i + 1).drop_last() =~= questions@.take(i as int));
        i += 1;
    }
    assert(questions@.take(n as int) =~= questions@);
    s
}

} // verus!
