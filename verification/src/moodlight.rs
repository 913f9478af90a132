//! The room dimmer: its three presets as the client reads them, and the
//! state it keeps when it is switched or set.
use vstd::prelude::*;
use vstd::string::StringSliceAdditionalSpecFns;

use crate::codec::{push_vl64, vl64_text};
use crate::session::{text_after, text_after_spec};
use crate::strings::{strings_view, escape_spec, stripslash};
use crate::text::{push_char, push_str, push_i64, int_text, parse_int_spec, split_spec, split_chars, to_chars};

verus! {

/// A number as `str::parse::<i32>` reads it, `default` when it does not.
pub open spec fn i32_or(s: Seq<char>, default: int) -> int {
    match parse_int_spec(s, true, i32::MIN as int, i32::MAX as int) {
        Some(v) => v,
        None => default,
    }
}

/// A preset `type,colour,darkness` as the client reads it: its number, the
/// type, the colour and the darkness.
pub open spec fn preset_text(k: int, parts: Seq<Seq<char>>) -> Seq<char> {
    vl64_text(k) + vl64_text(i32_or(parts[0], 0)) + parts[1] + seq!['\u{2}'] + vl64_text(i32_or(parts[2], 0))
}

/// Presets 1 to `k` can be read: each has three comma-separated parts.
pub open spec fn presets_ok(row: Seq<Seq<char>>, k: int) -> bool {
    forall|j: int| 1 <= j <= k ==> #[trigger] split_spec(row[j], ',').len() >= 3
}

/// The dimmer's presets from its row `preset_cur, preset_1, preset_2,
/// preset_3`: the count 3, the current preset (1 when it does not read),
/// then each preset; nothing when the row is short or a preset has fewer
/// than three parts.
pub open spec fn moodlight_settings_spec(row: Seq<Seq<char>>) -> Option<Seq<char>> {
    if row.len() < 4 || !presets_ok(row, 3) {
        None
    } else {
        Some(
            vl64_text(3) + vl64_text(i32_or(row[0], 1)) + preset_text(1, split_spec(row[1], ','))
                + preset_text(2, split_spec(row[2], ',')) + preset_text(3, split_spec(row[3], ',')),
        )
    }
}

/// The numbers the dimmer's presets write can be written (the encoder
/// cannot negate `i32::MIN`), as far as reading gets.
pub open spec fn moodlight_settings_fit(row: Seq<Seq<char>>) -> bool {
    row.len() >= 4 ==> {
        &&& i32_or(row[0], 1) != i32::MIN as int
        &&& forall|k: int|
            1 <= k <= 3 && presets_ok(row, k) ==> i32_or(#[trigger] split_spec(row[k], ',')[0], 0) != i32::MIN as int
                && i32_or(split_spec(row[k], ',')[2], 0) != i32::MIN as int
    }
}

fn i32_or_exec(cs: &[char], default: i32) -> (r: i32)
    ensures
        r as int == i32_or(cs@, default as int),
{
    match crate::text::parse_i32_chars(cs) {
        Some(v) => v,
        None => default,
    }
}

/// The dimmer's presets as the client reads them (see
/// `moodlight_settings_spec`).
pub fn moodlight_settings(row: &[String]) -> (r: Option<String>)
    requires
        moodlight_settings_fit(strings_view(row@)),
    ensures
        match moodlight_settings_spec(strings_view(row@)) {
            Some(t) => r matches Some(s) && s@ == t,
            None => r is None,
        },
{
    let ghost rv = strings_view(row@);
    if row.len() < 4 {
        return None;
    }
    assert(forall|i: int| 0 <= i < 4 ==> rv[i] == row@[i]@);
    let mut s = String::new();
    push_vl64(&mut s, 3);
    let cur = i32_or_exec(to_chars(row[0].as_str()).as_slice(), 1);
    push_vl64(&mut s, cur);
    let mut k: usize = 1;
    while k <= 3
        invariant
            1 <= k <= 4,
            row@.len() >= 4,
            rv == strings_view(row@),
            forall|i: int| 0 <= i < 4 ==> rv[i] == row@[i]@,
            moodlight_settings_fit(rv),
            presets_ok(rv, k - 1),
            s@ == vl64_text(3) + vl64_text(i32_or(rv[0], 1)) + presets_prefix(rv, k - 1),
        decreases 4 - k,
    {
        let cs = to_chars(row[k].as_str());
        let parts = split_chars(cs.as_slice(), ',');
        if parts.len() < 3 {
            assert(!presets_ok(rv, 3)) by {
                assert(split_spec(rv[k as int], ',').len() < 3);
            }
            return None;
        }
        assert(presets_ok(rv, k as int)) by {
            assert forall|j: int| 1 <= j <= k implies #[trigger] split_spec(rv[j], ',').len() >= 3 by {
                if j < k {
                    assert(presets_ok(rv, k - 1));
                }
            }
        }
        let ghost ps = split_spec(rv[k as int], ',');
        assert(parts@[0]@ == ps[0] && parts@[1]@ == ps[1] && parts@[2]@ == ps[2]);
        let ghost before = s@;
        push_vl64(&mut s, k as i32);
        push_vl64(&mut s, i32_or_exec(parts[0].as_slice(), 0));
        crate::text::push_chars(&mut s, parts[1].as_slice());
        push_char(&mut s, '\u{2}');
        push_vl64(&mut s, i32_or_exec(parts[2].as_slice(), 0));
        assert(s@ =~= before + preset_text(k as int, ps));
        k += 1;
    }
    proof {
        reveal_with_fuel(presets_prefix, 4);
    }
    assert(s@ =~= vl64_text(3) + vl64_text(i32_or(rv[0], 1)) + preset_text(1, split_spec(rv[1], ','))
        + preset_text(2, split_spec(rv[2], ',')) + preset_text(3, split_spec(rv[3], ',')));
    Some(s)
}

/// The presets 1 to `k` as the client reads them.
pub open spec fn presets_prefix(row: Seq<Seq<char>>, k: int) -> Seq<char>
    decreases k,
{
    if k <= 0 {
        Seq::empty()
    } else {
        presets_prefix(row, k - 1) + preset_text(k, split_spec(row[k], ','))
    }
}

/// The state a dimmer keeps after a change. Switched on or off, it keeps
/// its preset and flips its first character: `2` (on) becomes `1`, anything
/// else `2` (what follows the first byte is kept). Set, it is switched on
/// with the chosen preset: `2,preset,background,colour,darkness`, the colour
/// escaped.
pub open spec fn moodlight_var_spec(
    is_enabled: bool,
    current: Seq<char>,
    preset_id: i64,
    bg_state: i64,
    colour: Seq<char>,
    darkness: i64,
) -> Seq<char> {
    if !is_enabled {
        (if current.len() > 0 && current[0] == '2' { seq!['1'] } else { seq!['2'] }) + text_after_spec(current, 1)
    } else {
        seq!['2', ','] + int_text(preset_id as int) + seq![','] + int_text(bg_state as int) + seq![',']
            + escape_spec(colour) + seq![','] + int_text(darkness as int)
    }
}

/// The state a dimmer keeps after a change (see `moodlight_var_spec`).
pub fn moodlight_var(is_enabled: bool, current: &str, preset_id: i64, bg_state: i64, colour: &str, darkness: i64) -> (r: String)
    ensures
        r@ == moodlight_var_spec(is_enabled, current@, preset_id, bg_state, colour@, darkness),
{
    if !is_enabled {
        let cs = to_chars(current);
        let mut s = String::new();
        if cs.len() > 0 && cs[0] == '2' {
            push_char(&mut s, '1');
        } else {
            push_char(&mut s, '2');
        }
        push_str(&mut s, text_after(current, 1));
        s
    } else {
        let mut s = String::new();
        push_char(&mut s, '2');
        push_char(&mut s, ',');
        push_i64(&mut s, preset_id);
        push_char(&mut s, ',');
        push_i64(&mut s, bg_state);
        push_char(&mut s, ',');
        push_str(&mut s, stripslash(colour).as_str());
        push_char(&mut s, ',');
        push_i64(&mut s, darkness);
        s
    }
}

/// The VL64 number at the front of a text, if it decodes.
pub open spec fn vl64_front(s: Seq<char>) -> Option<int> {
    match crate::codec::vl64_decode_spec(vstd::utf8::encode_utf8(s)) {
        Ok((v, _)) => Some(v),
        Err(_) => None,
    }
}

/// The length of the colour in a dimmer setting: the B64 number in bytes 4
/// and 5 (0 when they cannot be sliced or are not B64).
pub open spec fn colour_length(p: Seq<char>) -> int {
    match crate::codec::b64_decode_spec(vstd::utf8::encode_utf8(crate::stickies::text_range_spec(p, 4, 6))) {
        Ok(v) => v,
        Err(_) => 0,
    }
}

/// What setting the dimmer asks for, read from the packet once escaped:
/// the preset (VL64 from byte 2), the background (VL64 from byte 3), the
/// colour (a B64 length in bytes 4 and 5, then that many bytes) and the
/// darkness (VL64 after the colour). Nothing when a number does not decode
/// or the colour cannot be sliced.
pub open spec fn moodlight_request_spec(packet: Seq<char>) -> Option<(int, int, Seq<char>, int)> {
    let p = escape_spec(packet);
    let n = colour_length(p);
    match (vl64_front(text_after_spec(p, 2)), vl64_front(text_after_spec(p, 3))) {
        (Some(preset), Some(bg)) => if !crate::stickies::text_range_ok(p, 6, 6 + n) {
            None
        } else {
            match vl64_front(text_after_spec(p, 6 + n)) {
                Some(dark) => Some((preset, bg, crate::stickies::text_range_spec(p, 6, 6 + n), dark)),
                None => None,
            }
        },
        _ => None,
    }
}

/// Each number of a dimmer setting can be decoded once the reading gets to
/// it.
pub open spec fn moodlight_request_decodable(packet: Seq<char>) -> bool {
    let p = escape_spec(packet);
    let n = colour_length(p);
    &&& crate::codec::vl64_decodable(vstd::utf8::encode_utf8(text_after_spec(p, 2)))
    &&& (vl64_front(text_after_spec(p, 2)) is Some ==> crate::codec::vl64_decodable(
        vstd::utf8::encode_utf8(text_after_spec(p, 3)),
    ))
    &&& (vl64_front(text_after_spec(p, 2)) is Some && vl64_front(text_after_spec(p, 3)) is Some
        && crate::stickies::text_range_ok(p, 6, 6 + n) ==> crate::codec::vl64_decodable(
        vstd::utf8::encode_utf8(text_after_spec(p, 6 + n)),
    ))
}

/// What setting the dimmer asks for (see `moodlight_request_spec`).
pub fn moodlight_request(packet: &str) -> (r: Option<(i32, i32, String, i32)>)
    requires
        moodlight_request_decodable(packet@),
    ensures
        match moodlight_request_spec(packet@) {
            Some((preset, bg, colour, dark)) => r matches Some(x) && x.0 as int == preset && x.1 as int == bg
                && x.2@ == colour && x.3 as int == dark,
            None => r is None,
        },
{
    let p = stripslash(packet);
    let after2 = text_after(p.as_str(), 2);
    let preset = match crate::codec::decode_vl64(after2) {
        Ok((v, _)) => {
            proof {
                crate::codec::lemma_vl64_decoded_range(after2.spec_bytes());
            }
            v
        },
        Err(_) => {
            return None;
        },
    };
    let after3 = text_after(p.as_str(), 3);
    let bg = match crate::codec::decode_vl64(after3) {
        Ok((v, _)) => {
            proof {
                crate::codec::lemma_vl64_decoded_range(after3.spec_bytes());
            }
            v
        },
        Err(_) => {
            return None;
        },
    };
    let raw = crate::stickies::text_range(p.as_str(), 4, 6);
    proof {
        if raw.spec_bytes().len() == 2 {
            crate::game_settings::lemma_two_bytes(raw.spec_bytes());
        }
        lemma_short_colour(p@);
    }
    let n = match crate::codec::decode_b64(raw) {
        Ok(v) => v,
        Err(_) => 0,
    };
    let colour = match crate::stickies::text_range_checked(p.as_str(), 6, 6 + n) {
        Some(c) => crate::text::owned(c),
        None => {
            return None;
        },
    };
    let rest = text_after(p.as_str(), 6 + n);
    let dark = match crate::codec::decode_vl64(rest) {
        Ok((v, _)) => {
            proof {
                crate::codec::lemma_vl64_decoded_range(rest.spec_bytes());
            }
            v
        },
        Err(_) => {
            return None;
        },
    };
    Some((preset, bg, colour, dark))
}

/// The colour slice is two bytes or none, so its B64 number decodes within
/// bounds.
proof fn lemma_short_colour(p: Seq<char>)
    ensures
        crate::codec::b64_fits(vstd::utf8::encode_utf8(crate::stickies::text_range_spec(p, 4, 6))),
        0 <= colour_length(p) <= 191 * 65,
{
    let t = crate::stickies::text_range_spec(p, 4, 6);
    let bytes = vstd::utf8::encode_utf8(p);
    if crate::stickies::text_range_ok(p, 4, 6) {
        crate::stickies::lemma_range_bytes(p, 4, 6);
        crate::game_settings::lemma_two_bytes(bytes.subrange(4, 6));
    } else {
        assert(t == Seq::<char>::empty());
        assert(vstd::utf8::encode_utf8(t) =~= Seq::<u8>::empty());
        assert(crate::codec::b64_value(Seq::<u8>::empty()) == 0);
    }
}

} // verus!
