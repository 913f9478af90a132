//! What a user asks to do in a room, and whether it is allowed: dancing,
//! carrying a drink, switching a wall item, and putting up wallpaper, floor
//! or landscape.
use vstd::prelude::*;
use vstd::string::StringSliceAdditionalSpecFns;
use vstd::utf8::encode_utf8;

use crate::codec::{decode_vl64, vl64_decodable};
use crate::modtool::{b64_at, slice_at, vl64_head};
use crate::session::{text_after, text_after_spec};
use crate::stickies::{lemma_range_bytes, text_range_checked};
use crate::text::{
    i64_text, int_text, parse_i32, parse_i64, parse_i64_chars, parse_int_spec, push_char, push_str,
    split_chars, split_spec, str_eq, string_of, strip_prefix_chars, strip_prefix_spec, to_chars,
};
use crate::strings::{lowercase, lowercase_of};

verus! {

broadcast use vstd::utf8::encode_utf8_valid_utf8, vstd::utf8::encode_utf8_decode_utf8;

/// The VL64 number after the two header bytes can be decoded.
pub open spec fn head_decodable(p: Seq<char>) -> bool {
    vl64_decodable(encode_utf8(text_after_spec(p, 2)))
}

/// The dance a user starts: none while sitting or lying; a plain dance
/// (empty value) for a bare request; else the club dance numbered by the
/// VL64 number after the header, 0 to 4, for a user with the club-dance
/// right.
pub open spec fn dance_spec(p: Seq<char>, posed: bool, club_dance: bool) -> Option<Seq<char>> {
    if posed {
        None
    } else if encode_utf8(p).len() == 2 {
        Some(Seq::empty())
    } else if !club_dance {
        None
    } else {
        let d = match vl64_head(text_after_spec(p, 2)) {
            Some(v) => v,
            None => -1,
        };
        if 0 <= d <= 4 {
            Some(int_text(d))
        } else {
            None
        }
    }
}

/// The dance a user starts (see `dance_spec`): the value of its status.
pub fn dance_status(packet: &str, posed: bool, club_dance: bool) -> (r: Option<String>)
    requires
        head_decodable(packet@),
    ensures
        match dance_spec(packet@, posed, club_dance) {
            Some(v) => r matches Some(x) && x@ == v,
            None => r is None,
        },
{
    if posed {
        return None;
    }
    if packet.as_bytes().len() == 2 {
        return Some(String::new());
    }
    if !club_dance {
        return None;
    }
    let rest = text_after(packet, 2);
    assert(rest.spec_bytes() == encode_utf8(rest@));
    proof {
        if crate::codec::vl64_decode_spec(rest.spec_bytes()) is Ok {
            crate::codec::lemma_vl64_decoded_range(rest.spec_bytes());
        }
    }
    let d: i32 = match decode_vl64(rest) {
        Ok((v, _)) => v,
        Err(_) => -1,
    };
    if 0 <= d && d <= 4 {
        Some(i64_text(d as i64))
    } else {
        None
    }
}

/// The drinks any room hands out.
pub open spec fn is_drink(item: Seq<char>) -> bool {
    item == "Water"@ || item == "Milk"@ || item == "Juice"@
}

/// What a user starts to carry: the text after the header, which must not
/// be empty nor hold `/`; nothing while lying. A number must be 1 to 26;
/// any other name is allowed in a public room, and in a guest room only
/// the drinks.
pub open spec fn carry_spec(p: Seq<char>, lying: bool, is_public: bool) -> Option<Seq<char>> {
    let item = text_after_spec(p, 2);
    if item.len() == 0 || item.contains('/') || lying {
        None
    } else {
        match parse_int_spec(item, true, i32::MIN as int, i32::MAX as int) {
            Some(n) => if 1 <= n <= 26 {
                Some(item)
            } else {
                None
            },
            None => if is_public || is_drink(item) {
                Some(item)
            } else {
                None
            },
        }
    }
}

fn has_slash(cs: &[char]) -> (r: bool)
    ensures
        r == cs@.contains('/'),
{
    let mut i: usize = 0;
    while i < cs.len()
        invariant
            0 <= i <= cs@.len(),
            forall|j: int| 0 <= j < i ==> cs@[j] != '/',
        decreases cs.len() - i,
    {
        if cs[i] == '/' {
            assert(cs@[i as int] == '/');
            return true;
        }
        i += 1;
    }
    false
}

/// What a user starts to carry (see `carry_spec`).
pub fn carry_item(packet: &str, lying: bool, is_public: bool) -> (r: Option<String>)
    ensures
        match carry_spec(packet@, lying, is_public) {
            Some(v) => r matches Some(x) && x@ == v,
            None => r is None,
        },
{
    let item = text_after(packet, 2);
    let cs = to_chars(item);
    if cs.len() == 0 || has_slash(cs.as_slice()) || lying {
        return None;
    }
    match parse_i32(item) {
        Some(n) => {
            if 1 <= n && n <= 26 {
                Some(string_of(cs.as_slice()))
            } else {
                None
            }
        },
        None => {
            let drink = str_eq(item, "Water") || str_eq(item, "Milk") || str_eq(item, "Juice");
            proof {
                reveal_strlit("Water");
                reveal_strlit("Milk");
                reveal_strlit("Juice");
            }
            if is_public || drink {
                Some(string_of(cs.as_slice()))
            } else {
                None
            }
        },
    }
}

// ---------------------------------------------------------------- wall items

/// The bytes of a wall-item switch can be read: the item's B64 length in
/// bytes 2 and 3 can be sliced, and the status after the item decodes.
pub open spec fn wall_toggle_readable(p: Seq<char>) -> bool {
    encode_utf8(p).len() >= 4 ==> {
        &&& b64_at(p, 2) is Some || crate::stickies::text_range_ok(p, 2, 4)
        &&& vl64_decodable(
            encode_utf8(
                text_after_spec(
                    p,
                    4 + match b64_at(p, 2) {
                        Some(v) => v,
                        None => 0,
                    },
                ),
            ),
        )
    }
}

/// A wall-item switch: the item id (a decimal text whose byte length is the
/// B64 number in bytes 2 and 3, 0 when that is not B64) and the status to
/// switch to (the VL64 number after it, 0 when it does not decode).
pub open spec fn wall_toggle_spec(p: Seq<char>) -> Option<(int, int)> {
    if encode_utf8(p).len() < 4 {
        None
    } else {
        let n = match b64_at(p, 2) {
            Some(v) => v,
            None => 0,
        };
        match slice_at(p, 4, n) {
            None => None,
            Some(id_text) => match parse_int_spec(id_text, true, i64::MIN as int, i64::MAX as int) {
                None => None,
                Some(id) => Some(
                    (
                        id,
                        match vl64_head(text_after_spec(p, 4 + n)) {
                            Some(v) => v,
                            None => 0,
                        },
                    ),
                ),
            },
        }
    }
}

/// A wall-item switch (see `wall_toggle_spec`).
pub fn wall_toggle_request(packet: &str) -> (r: Option<(i64, i32)>)
    requires
        wall_toggle_readable(packet@),
    ensures
        match wall_toggle_spec(packet@) {
            Some((id, status)) => r matches Some(x) && x.0 as int == id && x.1 as int == status,
            None => r is None,
        },
{
    if packet.as_bytes().len() < 4 {
        return None;
    }
    let n: usize = match text_range_checked(packet, 2, 4) {
        Some(raw) => {
            proof {
                lemma_range_bytes(packet@, 2, 4);
                crate::game_settings::lemma_two_bytes(raw.spec_bytes());
            }
            match crate::codec::decode_b64(raw) {
                Ok(v) => v,
                Err(_) => 0,
            }
        },
        None => 0,
    };
    assert(n as int == match b64_at(packet@, 2) {
        Some(v) => v,
        None => 0,
    });
    let id_text = match text_range_checked(packet, 4, 4 + n) {
        Some(t) => t,
        None => {
            return None;
        },
    };
    let id = match parse_i64(id_text) {
        Some(v) => v,
        None => {
            return None;
        },
    };
    let rest = text_after(packet, 4 + n);
    assert(rest.spec_bytes() == encode_utf8(rest@));
    proof {
        if crate::codec::vl64_decode_spec(rest.spec_bytes()) is Ok {
            crate::codec::lemma_vl64_decoded_range(rest.spec_bytes());
        }
    }
    let status: i32 = match decode_vl64(rest) {
        Ok((v, _)) => v,
        Err(_) => 0,
    };
    Some((id, status))
}

/// Wall items that switching leaves alone: dimmers, stickies, posters and
/// wheels of fortune.
pub open spec fn wall_item_toggleable_spec(sprite: Seq<char>) -> bool {
    !(sprite == "roomdimmer"@ || sprite == "post.it"@ || sprite == "post.it.vd"@ || sprite == "poster"@
        || sprite == "habbowheel"@)
}

/// Whether a wall item with this sprite can be switched (see
/// `wall_item_toggleable_spec`).
pub fn wall_item_toggleable(sprite: &str) -> (r: bool)
    ensures
        r == wall_item_toggleable_spec(sprite@),
{
    let fixed = str_eq(sprite, "roomdimmer") || str_eq(sprite, "post.it") || str_eq(sprite, "post.it.vd")
        || str_eq(sprite, "poster") || str_eq(sprite, "habbowheel");
    !fixed
}

// ---------------------------------------------------------------- decor

/// The kinds of decoration a room can take.
pub open spec fn is_decor_type(t: Seq<char>) -> bool {
    t == "wallpaper"@ || t == "floor"@ || t == "landscape"@
}

/// A decoration request, the text after the header: the kind before the
/// first `/`, and the item id after it (0 when missing or not a number).
/// Nothing when the id is not positive or the kind is not wallpaper, floor
/// or landscape.
pub open spec fn decor_spec(payload: Seq<char>) -> Option<(Seq<char>, int)> {
    let parts = split_spec(payload, '/');
    let id = if parts.len() > 1 {
        match parse_int_spec(parts[1], true, i64::MIN as int, i64::MAX as int) {
            Some(v) => v,
            None => 0,
        }
    } else {
        0
    };
    if id <= 0 || !is_decor_type(parts[0]) {
        None
    } else {
        Some((parts[0], id))
    }
}

/// A decoration request (see `decor_spec`).
pub fn decor_request(payload: &str) -> (r: Option<(String, i64)>)
    ensures
        match decor_spec(payload@) {
            Some((t, id)) => r matches Some(x) && x.0@ == t && x.1 as int == id,
            None => r is None,
        },
{
    let cs = to_chars(payload);
    let parts = split_chars(cs.as_slice(), '/');
    proof {
        crate::text::lemma_split_nonempty(payload@, '/');
    }
    let id: i64 = if parts.len() > 1 {
        match parse_i64_chars(parts[1].as_slice()) {
            Some(v) => v,
            None => 0,
        }
    } else {
        0
    };
    let kind = string_of(parts[0].as_slice());
    let known = str_eq(kind.as_str(), "wallpaper") || str_eq(kind.as_str(), "floor") || str_eq(
        kind.as_str(),
        "landscape",
    );
    proof {
        reveal_strlit("wallpaper");
        reveal_strlit("floor");
        reveal_strlit("landscape");
    }
    if id <= 0 || !known {
        None
    } else {
        Some((kind, id))
    }
}

/// What the room is told of a new decoration: `@n`, the kind, `/` and the
/// value.
pub fn decor_packet(kind: &str, value: &str) -> (r: String)
    ensures
        r@ == seq!['@', 'n'] + kind@ + seq!['/'] + value@,
{
    let mut s = String::new();
    push_char(&mut s, '@');
    push_char(&mut s, 'n');
    push_str(&mut s, kind);
    push_char(&mut s, '/');
    push_str(&mut s, value);
    s
}

// ---------------------------------------------------------------- credit furniture

/// The credits a credit item is worth, from its sprite and the sprite in
/// lower case: the sprite must start with `cf_` or `cfc_` in lower case,
/// and the piece after its first `_` must be a positive number.
pub open spec fn credit_value_spec(sprite: Seq<char>, lowered: Seq<char>) -> Option<int> {
    if strip_prefix_spec(lowered, "cf_"@) is None && strip_prefix_spec(lowered, "cfc_"@) is None {
        None
    } else {
        let parts = split_spec(sprite, '_');
        if parts.len() < 2 {
            None
        } else {
            match parse_int_spec(parts[1], true, i64::MIN as int, i64::MAX as int) {
                Some(v) => if v > 0 {
                    Some(v)
                } else {
                    None
                },
                None => None,
            }
        }
    }
}

/// The credits a credit item is worth (see `credit_value_spec`), given its
/// sprite in lower case.
pub fn credit_value_of(sprite: &str, lowered: &str) -> (r: Option<i64>)
    ensures
        match credit_value_spec(sprite@, lowered@) {
            Some(v) => r == Some(v as i64),
            None => r is None,
        },
{
    let low = to_chars(lowered);
    let cf = to_chars("cf_");
    let cfc = to_chars("cfc_");
    proof {
        reveal_strlit("cf_");
        reveal_strlit("cfc_");
    }
    let a = strip_prefix_chars(low.as_slice(), cf.as_slice());
    let b = strip_prefix_chars(low.as_slice(), cfc.as_slice());
    if a.is_none() && b.is_none() {
        return None;
    }
    let cs = to_chars(sprite);
    let parts = split_chars(cs.as_slice(), '_');
    if parts.len() < 2 {
        return None;
    }
    match parse_i64_chars(parts[1].as_slice()) {
        Some(v) => {
            if v > 0 {
                Some(v)
            } else {
                None
            }
        },
        None => None,
    }
}

/// The credits a credit item with this sprite is worth (see
/// `credit_value_spec`; the lower case is `str::to_lowercase`'s).
pub fn credit_value(sprite: &str) -> (r: Option<i64>)
    ensures
        match credit_value_spec(sprite@, lowercase_of(sprite@)) {
            Some(v) => r == Some(v as i64),
            None => r is None,
        },
{
    let lowered = lowercase(sprite);
    credit_value_of(sprite, lowered.as_str())
}

} // verus!
