//! Buying from the catalogue: whether a purchase goes through and to
//! whom, and what a bought item needs besides its row.
use vstd::prelude::*;

use crate::catalogue::PurchaseRequest;
use crate::catalogue_pages::i64_or;
use crate::session::{text_after, text_after_spec};
use crate::strings::{get_string_part, string_part_spec};
use crate::text::{parse_i64, str_eq};

verus! {

/// What becomes of a purchase.
#[derive(Debug, Clone, Copy, PartialEq, Eq, Structural)]
pub enum PurchaseAction {
    /// The item costs nothing or more than the buyer has.
    Refused,
    /// The present's receiver does not exist.
    UnknownReceiver,
    /// The purchase goes through: to another user when it is a present for
    /// someone else, and the buyer keeps `new_credits`.
    Buy { to_other: bool, new_credits: i64 },
}

/// What becomes of a purchase of an item costing `cost` by a user with
/// `credits`, named `username`; `receiver_id` is the id found for the
/// present's receiver (0 or less when there is none). A present for oneself
/// is an ordinary purchase.
pub open spec fn purchase_step_spec(
    as_present: bool,
    receiver: Seq<char>,
    cost: i64,
    credits: i64,
    username: Seq<char>,
    receiver_id: i64,
) -> PurchaseAction {
    if cost == 0 || cost > credits {
        PurchaseAction::Refused
    } else {
        let to_other = as_present && receiver != username;
        if to_other && receiver_id <= 0 {
            PurchaseAction::UnknownReceiver
        } else {
            PurchaseAction::Buy { to_other, new_credits: (credits - cost) as i64 }
        }
    }
}

/// What becomes of a purchase (see `purchase_step_spec`).
pub fn purchase_step(req: &PurchaseRequest, cost: i64, credits: i64, username: &str, receiver_id: i64) -> (r: PurchaseAction)
    requires
        i64::MIN <= credits - cost <= i64::MAX,
    ensures
        r == purchase_step_spec(req.as_present, req.receiver@, cost, credits, username@, receiver_id),
{
    if cost == 0 || cost > credits {
        return PurchaseAction::Refused;
    }
    let to_other = req.as_present && !str_eq(req.receiver.as_str(), username);
    if to_other && receiver_id <= 0 {
        PurchaseAction::UnknownReceiver
    } else {
        PurchaseAction::Buy { to_other, new_credits: credits - cost }
    }
}

/// What a bought item needs besides its row, by its sprite.
#[derive(Debug, Clone, Copy, PartialEq, Eq, Structural)]
pub enum PurchaseEffect {
    /// Wallpaper, floor or landscape: the chosen pattern is stored.
    Decoration,
    /// A room dimmer: its presets are set up.
    Moodlight,
    /// A teleporter: a second one is made and the two are linked.
    TeleporterPair,
    /// A sticky pad: it starts with 20 notes.
    StickyPad,
    /// A sound set: its number is stored.
    SoundSet(i64),
    /// Nothing more.
    Plain,
}

/// The sprites of teleporters.
pub open spec fn is_teleporter_sprite(s: Seq<char>) -> bool {
    s == "door"@ || s == "doorB"@ || s == "doorC"@ || s == "doorD"@ || s == "teleport_door"@ || s
        == "xmas08_telep"@ || s == "ads_cltele"@
}

/// What a bought item with this sprite needs: decorations, room dimmers,
/// teleporters and sticky pads by name; a sprite starting with
/// `sound_set_` is a sound set numbered by the rest (0 when no number).
pub open spec fn purchase_effect_spec(sprite: Seq<char>) -> PurchaseEffect {
    if sprite == "landscape"@ || sprite == "wallpaper"@ || sprite == "floor"@ {
        PurchaseEffect::Decoration
    } else if sprite == "roomdimmer"@ {
        PurchaseEffect::Moodlight
    } else if is_teleporter_sprite(sprite) {
        PurchaseEffect::TeleporterPair
    } else if sprite == "post.it"@ || sprite == "post.it.vd"@ {
        PurchaseEffect::StickyPad
    } else if string_part_spec(sprite, 0, 10) == "sound_set_"@ {
        PurchaseEffect::SoundSet(i64_or(text_after_spec(sprite, 10), 0) as i64)
    } else {
        PurchaseEffect::Plain
    }
}

/// What a bought item with this sprite needs (see `purchase_effect_spec`).
pub fn purchase_effect(sprite: &str) -> (r: PurchaseEffect)
    ensures
        r == purchase_effect_spec(sprite@),
{
    proof {
        reveal_strlit("landscape");
        reveal_strlit("wallpaper");
        reveal_strlit("floor");
        reveal_strlit("roomdimmer");
        reveal_strlit("door");
        reveal_strlit("doorB");
        reveal_strlit("doorC");
        reveal_strlit("doorD");
        reveal_strlit("teleport_door");
        reveal_strlit("xmas08_telep");
        reveal_strlit("ads_cltele");
        reveal_strlit("post.it");
        reveal_strlit("post.it.vd");
        reveal_strlit("sound_set_");
    }
    if str_eq(sprite, "landscape") || str_eq(sprite, "wallpaper") || str_eq(sprite, "floor") {
        PurchaseEffect::Decoration
    } else if str_eq(sprite, "roomdimmer") {
        PurchaseEffect::Moodlight
    } else if str_eq(sprite, "door") || str_eq(sprite, "doorB") || str_eq(sprite, "doorC") || str_eq(sprite, "doorD")
        || str_eq(sprite, "teleport_door") || str_eq(sprite, "xmas08_telep") || str_eq(sprite, "ads_cltele") {
        PurchaseEffect::TeleporterPair
    } else if str_eq(sprite, "post.it") || str_eq(sprite, "post.it.vd") {
        PurchaseEffect::StickyPad
    } else {
        let head = get_string_part(sprite, 0, 10);
        if str_eq(head.as_str(), "sound_set_") {
            let n: i64 = match parse_i64(text_after(sprite, 10)) {
                Some(v) => v,
                None => 0,
            };
            PurchaseEffect::SoundSet(n)
        } else {
            PurchaseEffect::Plain
        }
    }
}

} // verus!
