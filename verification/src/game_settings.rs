//! The settings of a game that a player asks to create in a game lobby:
//! a VL64 count of settings, then for each a B64-length-prefixed key, a type
//! byte (`H` for a VL64 number, anything else for a B64-length-prefixed
//! text) and the value.
use vstd::prelude::*;
use vstd::utf8::{decode_utf8, encode_utf8, is_char_boundary};
use vstd::string::StringSliceAdditionalSpecFns;

use crate::codec::{b64_decode_spec, b64_decode_bytes, lemma_b64_two_fits, vl64_decode_spec, vl64_decodable, decode_vl64, lemma_vl64_decoded_range};
use crate::lobby::GameLobby;
use crate::session::{after_header, packet_body};
use crate::speech::opt_text;
use crate::text::{str_eq, split_spec, split_chars, to_chars, parse_int_spec, parse_i32_chars};

verus! {

broadcast use vstd::utf8::encode_utf8_valid_utf8, vstd::utf8::encode_utf8_decode_utf8;

/// The settings read so far: the map (`fieldType`), the number of teams
/// (`numTeams`), and the last text given for the allowed power-ups and for
/// the game's name.
pub struct SettingsDraft {
    pub map_id: i64,
    pub team_amount: usize,
    pub powerups: Option<Seq<char>>,
    pub name: Option<Seq<char>>,
}

/// Nothing read yet: no map (-1), no teams.
pub open spec fn empty_draft() -> SettingsDraft {
    SettingsDraft { map_id: -1i64, team_amount: 0usize, powerups: None, name: None }
}

/// A two-byte B64 length, 0 when it is not B64.
pub open spec fn short_length(h: Seq<u8>) -> int {
    match b64_decode_spec(h) {
        Ok(v) => v,
        Err(_) => 0,
    }
}

/// A number setting: the map or the number of teams; other keys are
/// ignored.
pub open spec fn apply_number(d: SettingsDraft, key: Seq<char>, v: int) -> SettingsDraft {
    if key == "fieldType"@ {
        SettingsDraft { map_id: v as i64, team_amount: d.team_amount, powerups: d.powerups, name: d.name }
    } else if key == "numTeams"@ {
        SettingsDraft { map_id: d.map_id, team_amount: v as usize, powerups: d.powerups, name: d.name }
    } else {
        d
    }
}

/// A text setting: the allowed power-ups or the name; other keys are
/// ignored.
pub open spec fn apply_text(d: SettingsDraft, key: Seq<char>, v: Seq<char>) -> SettingsDraft {
    if key == "allowedPowerups"@ {
        SettingsDraft { map_id: d.map_id, team_amount: d.team_amount, powerups: Some(v), name: d.name }
    } else if key == "name"@ {
        SettingsDraft { map_id: d.map_id, team_amount: d.team_amount, powerups: d.powerups, name: Some(v) }
    } else {
        d
    }
}

/// What reading one setting does: stop (the bytes run out or a number does
/// not decode), fault (a slice would cut a character, or a number cannot be
/// decoded at all), or go on with the bytes after the setting.
pub enum SettingStep {
    Stop,
    Fault,
    Next(Seq<u8>, SettingsDraft),
}

/// Reads one setting from `r` (see `SettingStep`).
#[verifier::opaque]
pub open spec fn setting_step(r: Seq<u8>, d: SettingsDraft) -> SettingStep {
    if r.len() < 3 {
        SettingStep::Stop
    } else if !is_char_boundary(r, 2) {
        SettingStep::Fault
    } else {
        let kl = short_length(r.subrange(0, 2));
        if r.len() < kl + 3 {
            SettingStep::Stop
        } else {
            let r2 = r.subrange(2, r.len() as int);
            if !is_char_boundary(r2, kl) {
                SettingStep::Fault
            } else {
                let key = decode_utf8(r2.subrange(0, kl));
                let after_key = r2.subrange(kl, r2.len() as int);
                if !is_char_boundary(after_key, 1) {
                    SettingStep::Fault
                } else {
                    let rest = after_key.subrange(1, after_key.len() as int);
                    if after_key[0] == 72 {
                        if !vl64_decodable(rest) {
                            SettingStep::Fault
                        } else {
                            match vl64_decode_spec(rest) {
                                Err(_) => SettingStep::Stop,
                                Ok((v, used)) => if !is_char_boundary(rest, used) {
                                    SettingStep::Fault
                                } else {
                                    SettingStep::Next(rest.subrange(used, rest.len() as int), apply_number(d, key, v))
                                },
                            }
                        }
                    } else if rest.len() < 2 {
                        SettingStep::Stop
                    } else if !is_char_boundary(rest, 2) {
                        SettingStep::Fault
                    } else {
                        let vl = short_length(rest.subrange(0, 2));
                        if rest.len() < 2 + vl {
                            SettingStep::Stop
                        } else {
                            let rest2 = rest.subrange(2, rest.len() as int);
                            if !is_char_boundary(rest2, vl) {
                                SettingStep::Fault
                            } else {
                                SettingStep::Next(
                                    rest2.subrange(vl, rest2.len() as int),
                                    apply_text(d, key, decode_utf8(rest2.subrange(0, vl))),
                                )
                            }
                        }
                    }
                }
            }
        }
    }
}

/// Reads up to `k` settings; `None` when reading faults.
pub open spec fn settings_loop(r: Seq<u8>, k: nat, d: SettingsDraft) -> Option<SettingsDraft>
    decreases k,
{
    if k == 0 {
        Some(d)
    } else {
        match setting_step(r, d) {
            SettingStep::Stop => Some(d),
            SettingStep::Fault => None,
            SettingStep::Next(r2, d2) => settings_loop(r2, (k - 1) as nat, d2),
        }
    }
}

proof fn lemma_loop_unfold(r: Seq<u8>, k: nat, d: SettingsDraft)
    ensures
        k == 0 ==> settings_loop(r, k, d) == Some(d),
        k > 0 ==> settings_loop(r, k, d) == match setting_step(r, d) {
            SettingStep::Stop => Some(d),
            SettingStep::Fault => None,
            SettingStep::Next(r2, d2) => settings_loop(r2, (k - 1) as nat, d2),
        },
{
}

/// What a create-game request holds.
pub enum SettingsRequest {
    /// Reading would cut a character or hit a number that cannot be decoded.
    Fault,
    /// The request names no positive number of settings.
    Empty,
    /// The settings read.
    Settings(SettingsDraft),
}

/// What the body of a create-game request holds: a VL64 count of settings
/// that must be positive, then that many settings at most.
pub open spec fn settings_request_spec(body: Seq<u8>) -> SettingsRequest {
    if !vl64_decodable(body) {
        SettingsRequest::Fault
    } else {
        match vl64_decode_spec(body) {
            Ok((v, used)) => if v <= 0 {
                SettingsRequest::Empty
            } else if !is_char_boundary(body, used) {
                SettingsRequest::Fault
            } else {
                match settings_loop(body.subrange(used, body.len() as int), v as nat, empty_draft()) {
                    Some(d) => SettingsRequest::Settings(d),
                    None => SettingsRequest::Fault,
                }
            },
            Err(_) => SettingsRequest::Empty,
        }
    }
}

/// The settings of a game, as read from a request.
pub struct GameSettings {
    pub map_id: i64,
    pub team_amount: usize,
    pub powerups: Option<String>,
    pub name: Option<String>,
}

impl View for GameSettings {
    type V = SettingsDraft;

    open spec fn view(&self) -> SettingsDraft {
        SettingsDraft {
            map_id: self.map_id,
            team_amount: self.team_amount,
            powerups: opt_text(self.powerups),
            name: opt_text(self.name),
        }
    }
}

pub(crate) proof fn lemma_two_bytes(h: Seq<u8>)
    requires
        h.len() == 2,
    ensures
        crate::codec::b64_fits(h),
        0 <= short_length(h) <= 191 * 65,
{
    lemma_b64_two_fits(h);
    if b64_decode_spec(h) is Ok {
        assert(crate::codec::b64_last_invalid(h) is None);
        lemma_no_invalid_all_valid(h);
    }
}

proof fn lemma_no_invalid_all_valid(h: Seq<u8>)
    requires
        crate::codec::b64_last_invalid(h) is None,
    ensures
        crate::codec::b64_all_valid(h),
    decreases h.len(),
{
    if h.len() > 0 {
        lemma_no_invalid_all_valid(h.drop_last());
        assert forall|i: int| 0 <= i < h.len() implies #[trigger] h[i] >= 64 by {
            if i < h.len() - 1 {
                assert(h.drop_last()[i] == h[i]);
            }
        }
    }
}

pub(crate) fn short_length_exec(s: &str) -> (r: usize)
    requires
        s.spec_bytes().len() >= 2,
    ensures
        r == short_length(s.spec_bytes().subrange(0, 2)),
        r <= 191 * 65,
{
    let (head, _) = s.as_bytes().split_at(2);
    proof {
        lemma_two_bytes(head@);
    }
    match b64_decode_bytes(head) {
        Ok(v) => v,
        Err(_) => 0,
    }
}

fn apply_number_exec(d: GameSettings, key: &str, v: i32) -> (r: GameSettings)
    ensures
        r@ == apply_number(d@, key@, v as int),
{
    if str_eq(key, "fieldType") {
        GameSettings { map_id: v as i64, ..d }
    } else if str_eq(key, "numTeams") {
        GameSettings { team_amount: v as usize, ..d }
    } else {
        d
    }
}

fn apply_text_exec(d: GameSettings, key: &str, v: &str) -> (r: GameSettings)
    ensures
        r@ == apply_text(d@, key@, v@),
{
    if str_eq(key, "allowedPowerups") {
        GameSettings { powerups: Some(crate::text::owned(v)), ..d }
    } else if str_eq(key, "name") {
        GameSettings { name: Some(crate::text::owned(v)), ..d }
    } else {
        d
    }
}

/// Reads one setting (see `setting_step`): whether to go on, the bytes left
/// and the settings so far.
fn setting_step_exec<'a>(r: &'a str, d: GameSettings) -> (out: (bool, &'a str, GameSettings))
    requires
        !(setting_step(r.spec_bytes(), d@) is Fault),
    ensures
        match setting_step(r.spec_bytes(), d@) {
            SettingStep::Stop => !out.0 && out.2@ == d@,
            SettingStep::Next(r2, d2) => out.0 && out.1.spec_bytes() == r2 && out.2@ == d2,
            SettingStep::Fault => false,
        },
{
    reveal(setting_step);
    let ghost rb = r.spec_bytes();
    if r.as_bytes().len() < 3 {
        assert(rb.len() < 3);
        assert(setting_step(rb, d@) is Stop);
        return (false, r, d);
    }
    if !r.is_char_boundary(2) {
        return (false, r, d);
    }
    let kl = short_length_exec(r);
    if r.as_bytes().len() < kl + 3 {
        return (false, r, d);
    }
    let (_, r2) = r.split_at(2);
    assert(r2.spec_bytes() =~= rb.subrange(2, rb.len() as int));
    if !r2.is_char_boundary(kl) {
        return (false, r, d);
    }
    let (key, after_key) = r2.split_at(kl);
    assert(key@ == decode_utf8(r2.spec_bytes().subrange(0, kl as int)));
    if !after_key.is_char_boundary(1) {
        return (false, r, d);
    }
    let value_type = after_key.as_bytes()[0];
    let (_, rest) = after_key.split_at(1);
    let ghost restb = rest.spec_bytes();
    assert(after_key.spec_bytes() =~= r2.spec_bytes().subrange(kl as int, r2.spec_bytes().len() as int));
    assert(restb =~= after_key.spec_bytes().subrange(1, after_key.spec_bytes().len() as int));
    assert(value_type == after_key.spec_bytes()[0]);
    if value_type == 72 {
        match decode_vl64(rest) {
            Err(_) => (false, r, d),
            Ok((v, used)) => {
                proof {
                    lemma_vl64_decoded_range(restb);
                }
                if !rest.is_char_boundary(used) {
                    return (false, r, d);
                }
                let (_, next) = rest.split_at(used);
                (true, next, apply_number_exec(d, key, v))
            },
        }
    } else {
        if rest.as_bytes().len() < 2 {
            return (false, r, d);
        }
        if !rest.is_char_boundary(2) {
            return (false, r, d);
        }
        let vl = short_length_exec(rest);
        if rest.as_bytes().len() < 2 + vl {
            return (false, r, d);
        }
        let (_, rest2) = rest.split_at(2);
        if !rest2.is_char_boundary(vl) {
            return (false, r, d);
        }
        let (value, next) = rest2.split_at(vl);
        assert(value@ == decode_utf8(rest2.spec_bytes().subrange(0, vl as int)));
        (true, next, apply_text_exec(d, key, value))
    }
}

/// The settings of a create-game request, from the packet (see
/// `settings_request_spec`, over the bytes after the header); `None` when
/// it names no settings.
pub fn parse_game_settings(packet: &str) -> (r: Option<GameSettings>)
    requires
        !(settings_request_spec(encode_utf8(after_header(packet@))) is Fault),
    ensures
        match settings_request_spec(encode_utf8(after_header(packet@))) {
            SettingsRequest::Settings(d) => r matches Some(g) && g@ == d,
            SettingsRequest::Empty => r is None,
            SettingsRequest::Fault => false,
        },
{
    let body = packet_body(packet);
    let ghost bb = body.spec_bytes();
    let (count, used) = match decode_vl64(body) {
        Ok((v, u)) => {
            proof {
                lemma_vl64_decoded_range(bb);
            }
            (v, u)
        },
        Err(_) => {
            return None;
        },
    };
    if count <= 0 {
        return None;
    }
    if !body.is_char_boundary(used) {
        return None;
    }
    let (_, first) = body.split_at(used);
    let key_amount = count as usize;
    assert(first.spec_bytes() =~= bb.subrange(used as int, bb.len() as int));
    let ghost r0 = first.spec_bytes();
    let ghost total = key_amount as nat;
    let mut rest = first;
    let mut d = GameSettings { map_id: -1, team_amount: 0, powerups: None, name: None };
    let mut i: usize = 0;
    loop
        invariant_except_break
            i <= key_amount,
            total == key_amount as nat,
            settings_loop(r0, total, empty_draft()) == settings_loop(rest.spec_bytes(), (total - i) as nat, d@),
            settings_loop(r0, total, empty_draft()) is Some,
        ensures
            settings_loop(r0, total, empty_draft()) == Some(d@),
        decreases key_amount - i,
    {
        proof {
            lemma_loop_unfold(rest.spec_bytes(), (total - i) as nat, d@);
        }
        if i >= key_amount {
            break;
        }
        let ghost before = d@;
        let (go, next, d2) = setting_step_exec(rest, d);
        d = d2;
        if !go {
            break;
        }
        rest = next;
        i += 1;
    }
    Some(d)
}

/// The power-ups of a new game: the comma-separated parts of the text that
/// read as `i32` and that the lobby allows, in order.
pub open spec fn powerup_list_spec(pieces: Seq<Seq<char>>, allowed: Seq<i32>) -> Seq<i32>
    decreases pieces.len(),
{
    if pieces.len() == 0 {
        Seq::empty()
    } else {
        powerup_list_spec(pieces.drop_last(), allowed) + match parse_int_spec(
            pieces.last(),
            true,
            i32::MIN as int,
            i32::MAX as int,
        ) {
            Some(v) => if allowed.contains(v as i32) {
                seq![v as i32]
            } else {
                Seq::empty()
            },
            None => Seq::empty(),
        }
    }
}

/// The power-ups of a new game (see `powerup_list_spec`).
pub fn powerup_list(lobby: &GameLobby, text: &str) -> (r: Vec<i32>)
    ensures
        r@ == powerup_list_spec(split_spec(text@, ','), lobby.allowed_powerups@),
{
    let cs = to_chars(text);
    let pieces = split_chars(cs.as_slice(), ',');
    let ghost ps = split_spec(text@, ',');
    let n = pieces.len();
    let mut out: Vec<i32> = Vec::new();
    let mut i: usize = 0;
    while i < n
        invariant
            n == pieces@.len(),
            n == ps.len(),
            cs@ == text@,
            ps == split_spec(text@, ','),
            forall|j: int| 0 <= j < n ==> #[trigger] pieces@[j]@ == ps[j],
            i <= n,
            out@ == powerup_list_spec(ps.take(i as int), lobby.allowed_powerups@),
        decreases n - i,
    {
        assert(ps.take(i + 1).drop_last() =~= ps.take(i as int));
        assert(ps.take(i + 1).last() == pieces@[i as int]@);
        match parse_i32_chars(pieces[i].as_slice()) {
            Some(v) => {
                if lobby.allows_powerup(v) {
                    out.push(v);
                }
            },
            None => {},
        }
        i += 1;
    }
    assert(ps.take(n as int) =~= ps);
    out
}

impl GameSettings {
    /// A game can be created from the settings when they name a map and at
    /// least one team, and the name (once filtered) is not empty.
    pub fn is_complete(&self, filtered_name: &str) -> (r: bool)
        ensures
            r == (self.map_id >= 0 && self.team_amount > 0 && filtered_name@.len() > 0),
    {
        !(self.map_id < 0 || self.team_amount == 0 || filtered_name.is_empty())
    }
}

} // verus!
