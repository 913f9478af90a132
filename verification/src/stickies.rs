//! Sticky notes: reading an edit of a note, the text stored for it, and
//! the packet that opens one.
use vstd::prelude::*;
use vstd::utf8::{decode_utf8, encode_utf8, is_char_boundary};
use vstd::string::StringSliceAdditionalSpecFns;

use crate::text::{push_char, push_str, push_i64, int_text, parse_int_spec, parse_i64, i64_text, to_chars, str_eq, owned};

verus! {

broadcast use vstd::utf8::encode_utf8_valid_utf8, vstd::utf8::encode_utf8_decode_utf8;

/// The text between bytes `a` and `b` of `s`, or nothing when they are out
/// of order or range or cut a character (`s.get(a..b)`).
pub open spec fn text_range_spec(s: Seq<char>, a: int, b: int) -> Seq<char> {
    let bytes = encode_utf8(s);
    if 0 <= a <= b <= bytes.len() && is_char_boundary(bytes, a) && is_char_boundary(bytes, b) {
        decode_utf8(bytes.subrange(a, b))
    } else {
        Seq::empty()
    }
}

/// The text between bytes `a` and `b` (see `text_range_spec`).
pub fn text_range(s: &str, a: usize, b: usize) -> (r: &str)
    ensures
        r@ == text_range_spec(s@, a as int, b as int),
{
    if a <= b && b <= s.as_bytes().len() && s.is_char_boundary(a) && s.is_char_boundary(b) {
        let (head, _) = s.split_at(b);
        assert(head.spec_bytes() =~= s.spec_bytes().subrange(0, b as int));
        assert(is_char_boundary(head.spec_bytes(), a as int)) by {
            lemma_boundary_prefix(s.spec_bytes(), b as int, a as int);
        }
        let (_, mid) = head.split_at(a);
        assert(mid.spec_bytes() =~= s.spec_bytes().subrange(a as int, b as int));
        mid
    } else {
        proof {
            reveal_strlit("");
        }
        ""
    }
}

/// Bytes `a` to `b` of `s` can be sliced: they are in order and range and
/// cut no character.
pub open spec fn text_range_ok(s: Seq<char>, a: int, b: int) -> bool {
    let bytes = encode_utf8(s);
    0 <= a <= b <= bytes.len() && is_char_boundary(bytes, a) && is_char_boundary(bytes, b)
}

/// The text between bytes `a` and `b`, when they can be sliced.
pub fn text_range_checked(s: &str, a: usize, b: usize) -> (r: Option<&str>)
    ensures
        match r {
            Some(t) => text_range_ok(s@, a as int, b as int) && t@ == text_range_spec(s@, a as int, b as int),
            None => !text_range_ok(s@, a as int, b as int),
        },
{
    if a <= b && b <= s.as_bytes().len() && s.is_char_boundary(a) && s.is_char_boundary(b) {
        Some(text_range(s, a, b))
    } else {
        None
    }
}

/// The bytes of a slice are the slice of the bytes.
pub proof fn lemma_range_bytes(s: Seq<char>, a: int, b: int)
    requires
        text_range_ok(s, a, b),
    ensures
        encode_utf8(text_range_spec(s, a, b)) == encode_utf8(s).subrange(a, b),
{
    let bytes = encode_utf8(s);
    lemma_boundary_prefix(bytes, b, a);
    let head = bytes.subrange(0, b);
    vstd::utf8::valid_utf8_split(head, a);
    assert(head.subrange(a, head.len() as int) =~= bytes.subrange(a, b));
    vstd::utf8::decode_utf8_encode_utf8(bytes.subrange(a, b));
}

/// A boundary of a text before `b` is a boundary of its first `b` bytes.
proof fn lemma_boundary_prefix(bytes: Seq<u8>, b: int, a: int)
    requires
        vstd::utf8::valid_utf8(bytes),
        0 <= a <= b <= bytes.len(),
        is_char_boundary(bytes, a),
        is_char_boundary(bytes, b),
    ensures
        vstd::utf8::valid_utf8(bytes.subrange(0, b)),
        is_char_boundary(bytes.subrange(0, b), a),
    decreases bytes.len(),
{
    vstd::utf8::valid_utf8_split(bytes, b);
    let p = bytes.subrange(0, b);
    if a == b {
        vstd::utf8::is_char_boundary_start_end_of_seq(p);
    } else {
        vstd::utf8::is_char_boundary_iff_not_is_continuation_byte(bytes, a);
        vstd::utf8::is_char_boundary_iff_not_is_continuation_byte(p, a);
        assert(p[a] == bytes[a]);
    }
}

/// The first position of byte `x` in `b`, if it occurs.
pub open spec fn find_byte_spec(b: Seq<u8>, x: u8) -> Option<int>
    decreases b.len(),
{
    if b.len() == 0 {
        None
    } else if b[0] == x {
        Some(0)
    } else {
        match find_byte_spec(b.subrange(1, b.len() as int), x) {
            Some(i) => Some(i + 1),
            None => None,
        }
    }
}

fn find_byte(b: &[u8], x: u8) -> (r: Option<usize>)
    ensures
        match find_byte_spec(b@, x) {
            Some(i) => r == Some(i as usize),
            None => r is None,
        },
{
    let n = b.len();
    let mut i: usize = 0;
    assert(b@.subrange(0, n as int) =~= b@);
    while i < n
        invariant
            n == b@.len(),
            i <= n,
            find_byte_spec(b@, x) == match find_byte_spec(b@.subrange(i as int, n as int), x) {
                Some(k) => Some(k + i),
                None => None,
            },
        decreases n - i,
    {
        assert(b@.subrange(i as int, n as int).subrange(1, n - i) =~= b@.subrange(i + 1, n as int));
        if b[i] == x {
            return Some(i);
        }
        i += 1;
    }
    None
}

proof fn lemma_find_byte_range(b: Seq<u8>, x: u8)
    ensures
        find_byte_spec(b, x) matches Some(i) ==> 0 <= i < b.len(),
    decreases b.len(),
{
    if b.len() > 0 && b[0] != x {
        lemma_find_byte_range(b.subrange(1, b.len() as int), x);
    }
}

/// The note that an edit names: the decimal text between the header and
/// the first `/`.
pub open spec fn sticky_edit_item_spec(packet: Seq<char>) -> Option<int> {
    match find_byte_spec(encode_utf8(packet), 47) {
        Some(i) => parse_int_spec(text_range_spec(packet, 2, i), true, i64::MIN as int, i64::MAX as int),
        None => None,
    }
}

/// The note that an edit names (see `sticky_edit_item_spec`).
pub fn sticky_edit_item(packet: &str) -> (r: Option<i64>)
    ensures
        r == (match sticky_edit_item_spec(packet@) {
            Some(v) => Some(v as i64),
            None => None::<i64>,
        }),
{
    proof {
        lemma_find_byte_range(packet.spec_bytes(), 47);
    }
    let bytes = packet.as_bytes();
    let n = bytes.len();
    assert(bytes@ == encode_utf8(packet@));
    assert(n == bytes@.len());
    match find_byte(bytes, 47) {
        Some(i) => {
            assert(find_byte_spec(encode_utf8(packet@), 47) == Some(i as int));
            let item = text_range(packet, 2, i);
            assert(item@ == text_range_spec(packet@, 2, i as int));
            parse_i64(item)
        },
        None => None,
    }
}

/// The colours a plain note may take.
pub open spec fn note_colour_ok(c: Seq<char>) -> bool {
    c == "FFFF33"@ || c == "FF9CFF"@ || c == "9CFF9C"@ || c == "9CCEFF"@
}

/// What an edit of note `item_id` with sprite `sprite` asks for: its
/// colour and its raw text. Only notes (`post.it`, `post.it.vd`) are
/// edited. A plain note takes the six characters after the number and one
/// more byte as its colour, which must be one of four; another note is
/// white. The text is what follows the colour; it may have at most 684
/// bytes.
pub open spec fn sticky_edit_spec(packet: Seq<char>, item_id: i64, sprite: Seq<char>) -> Option<(Seq<char>, Seq<char>)> {
    let l = int_text(item_id as int).len() as int;
    let colour = if sprite == "post.it"@ {
        text_range_spec(packet, 3 + l, 9 + l)
    } else {
        "FFFFFF"@
    };
    let message = crate::session::text_after_spec(packet, 9 + l);
    if sprite != "post.it"@ && sprite != "post.it.vd"@ {
        None
    } else if sprite == "post.it"@ && !note_colour_ok(colour) {
        None
    } else if encode_utf8(message).len() > 684 {
        None
    } else {
        Some((colour, message))
    }
}

/// What an edit of a note asks for (see `sticky_edit_spec`).
pub fn sticky_edit(packet: &str, item_id: i64, sprite: &str) -> (r: Option<(String, String)>)
    ensures
        match sticky_edit_spec(packet@, item_id, sprite@) {
            Some((c, m)) => r matches Some(x) && x.0@ == c && x.1@ == m,
            None => r is None,
        },
{
    let plain = str_eq(sprite, "post.it");
    if !plain && !str_eq(sprite, "post.it.vd") {
        return None;
    }
    let digits = to_chars(i64_text(item_id).as_str());
    proof {
        crate::text::lemma_i64_text_len(item_id);
    }
    let l = digits.len();
    let colour = if plain {
        owned(text_range(packet, 3 + l, 9 + l))
    } else {
        owned("FFFFFF")
    };
    if plain && !(str_eq(colour.as_str(), "FFFF33") || str_eq(colour.as_str(), "FF9CFF") || str_eq(colour.as_str(), "9CFF9C")
        || str_eq(colour.as_str(), "9CCEFF")) {
        return None;
    }
    let message = crate::session::text_after(packet, 9 + l);
    if message.as_bytes().len() > 684 {
        return None;
    }
    Some((colour, owned(message)))
}

/// A note's text with each `/r` turned into a line break, read left to
/// right.
pub open spec fn line_breaks_spec(s: Seq<char>) -> Seq<char>
    decreases s.len(),
{
    if s.len() == 0 {
        Seq::empty()
    } else if s.len() >= 2 && s[0] == '/' && s[1] == 'r' {
        seq!['\r'] + line_breaks_spec(s.subrange(2, s.len() as int))
    } else {
        seq![s[0]] + line_breaks_spec(s.subrange(1, s.len() as int))
    }
}

/// The text stored for a note: `/r` turned into line breaks, then escaped
/// for the query.
pub fn sticky_stored_text(text: &str) -> (r: String)
    ensures
        r@ == crate::strings::escape_spec(line_breaks_spec(text@)),
{
    let cs = to_chars(text);
    let n = cs.len();
    let mut out: Vec<char> = Vec::new();
    let mut i: usize = 0;
    assert(cs@.subrange(0, n as int) =~= text@);
    while i < n
        invariant
            n == cs@.len(),
            cs@ == text@,
            i <= n,
            line_breaks_spec(text@) == out@ + line_breaks_spec(cs@.subrange(i as int, n as int)),
        decreases n - i,
    {
        let ghost rest = cs@.subrange(i as int, n as int);
        if i + 1 < n && cs[i] == '/' && cs[i + 1] == 'r' {
            assert(rest.subrange(2, rest.len() as int) =~= cs@.subrange(i + 2, n as int));
            out.push('\r');
            i += 2;
        } else {
            assert(rest.subrange(1, rest.len() as int) =~= cs@.subrange(i + 1, n as int));
            out.push(cs[i]);
            i += 1;
        }
        assert(out@ + line_breaks_spec(cs@.subrange(i as int, n as int)) =~= line_breaks_spec(text@));
    }
    assert(cs@.subrange(n as int, n as int) =~= Seq::<char>::empty());
    assert(out@ =~= line_breaks_spec(text@));
    let joined = crate::text::string_of(out.as_slice());
    crate::strings::stripslash(joined.as_str())
}

/// The packet that opens a note: `@p`, the note, a tab, its colour, a space
/// and its text.
pub fn sticky_open_packet(item_id: i64, colour: &str, message: &str) -> (r: String)
    ensures
        r@ == "@p"@ + int_text(item_id as int) + seq!['\t'] + colour@ + seq![' '] + message@,
{
    let mut s = owned("@p");
    push_i64(&mut s, item_id);
    push_char(&mut s, '\t');
    push_str(&mut s, colour);
    push_char(&mut s, ' ');
    push_str(&mut s, message);
    s
}

} // verus!
