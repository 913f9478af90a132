//! The hand: the items a user owns that stand in no room, shown nine to a
//! page.
use vstd::prelude::*;

use crate::text::{push_char, push_str, push_i64, push_u64, int_text, nat_text, owned, str_eq};

verus! {

/// An item in the hand, with what its template says of it.
#[derive(Debug, Clone)]
pub struct HandItem {
    pub id: i64,
    /// 0 for a wall item, else a floor item.
    pub type_id: u8,
    pub sprite: String,
    pub colour: String,
    pub length: i64,
    pub width: i64,
    /// The item's own state (a sticky pad's colour, a floor item's
    /// variable).
    pub var: String,
    pub recycleable: bool,
}

/// The colour a wall item shows: a sticky pad shows its own state.
pub open spec fn wall_colour(item: HandItem) -> Seq<char> {
    if item.sprite@ == "post.it"@ || item.sprite@ == "post.it.vd"@ {
        item.var@
    } else {
        item.colour@
    }
}

/// The recycling flag of an item: `1` or `0`.
pub open spec fn recycle_flag(item: HandItem) -> char {
    if item.recycleable {
        '1'
    } else {
        '0'
    }
}

/// The start of an item's line: `SI`, the id and the slot, each followed
/// by `\u{1e}`.
pub open spec fn hand_head(item: HandItem, slot: nat) -> Seq<char> {
    seq!['S', 'I', '\u{1e}'] + int_text(item.id as int) + seq!['\u{1e}'] + nat_text(slot) + seq!['\u{1e}']
}

/// The rest of a wall item's line: `I`, id, sprite, wall colour and the
/// recycling flag, then `/`.
pub open spec fn wall_tail(item: HandItem) -> Seq<char> {
    seq!['I', '\u{1e}'] + int_text(item.id as int) + seq!['\u{1e}'] + item.sprite@ + seq!['\u{1e}']
        + wall_colour(item) + seq!['\u{1e}', recycle_flag(item), '/']
}

/// The rest of a floor item's line: `S`, id, sprite, length, width, state,
/// colour, the recycling flag and the sprite again, then `/`.
pub open spec fn floor_tail(item: HandItem) -> Seq<char> {
    seq!['S', '\u{1e}'] + int_text(item.id as int) + seq!['\u{1e}'] + item.sprite@ + seq!['\u{1e}']
        + int_text(item.length as int) + seq!['\u{1e}'] + int_text(item.width as int) + seq!['\u{1e}'] + item.var@
        + seq!['\u{1e}'] + item.colour@ + seq!['\u{1e}', recycle_flag(item), '\u{1e}'] + item.sprite@ + seq![
        '\u{1e}',
        '/',
    ]
}

/// The line of an item in the hand, its fields separated by `\u{1e}`:
/// the head, then the wall item's or the floor item's rest.
pub open spec fn hand_line(item: HandItem, slot: nat) -> Seq<char> {
    hand_head(item, slot) + (if item.type_id == 0 { wall_tail(item) } else { floor_tail(item) })
}

/// The lines of the items shown, the first in slot `first_slot`.
pub open spec fn hand_lines(items: Seq<HandItem>, first_slot: nat) -> Seq<char>
    decreases items.len(),
{
    if items.len() == 0 {
        Seq::empty()
    } else {
        hand_lines(items.drop_last(), first_slot) + hand_line(items.last(), first_slot + (items.len() - 1) as nat)
    }
}

/// The hand packet: `BL`, the lines of the items shown, then the number of
/// items in the whole hand.
pub open spec fn hand_packet_spec(items: Seq<HandItem>, first_slot: nat, total: nat) -> Seq<char> {
    seq!['B', 'L'] + hand_lines(items, first_slot) + seq!['\r'] + nat_text(total)
}

fn push_hand_head(s: &mut String, item: &HandItem, slot: usize)
    ensures
        final(s)@ == old(s)@ + hand_head(*item, slot as nat),
{
    let ghost before = s@;
    push_char(s, 'S');
    push_char(s, 'I');
    push_char(s, '\u{1e}');
    push_i64(s, item.id);
    push_char(s, '\u{1e}');
    push_u64(s, slot as u64);
    push_char(s, '\u{1e}');
    assert(s@ =~= before + hand_head(*item, slot as nat));
}

fn push_wall_tail(s: &mut String, item: &HandItem)
    ensures
        final(s)@ == old(s)@ + wall_tail(*item),
{
    let ghost before = s@;
    push_char(s, 'I');
    push_char(s, '\u{1e}');
    push_i64(s, item.id);
    push_char(s, '\u{1e}');
    push_str(s, item.sprite.as_str());
    push_char(s, '\u{1e}');
    if str_eq(item.sprite.as_str(), "post.it") || str_eq(item.sprite.as_str(), "post.it.vd") {
        push_str(s, item.var.as_str());
    } else {
        push_str(s, item.colour.as_str());
    }
    push_char(s, '\u{1e}');
    push_char(s, if item.recycleable { '1' } else { '0' });
    push_char(s, '/');
    assert(s@ =~= before + wall_tail(*item));
}

fn push_floor_tail(s: &mut String, item: &HandItem)
    ensures
        final(s)@ == old(s)@ + floor_tail(*item),
{
    let ghost before = s@;
    push_char(s, 'S');
    push_char(s, '\u{1e}');
    push_i64(s, item.id);
    push_char(s, '\u{1e}');
    push_str(s, item.sprite.as_str());
    push_char(s, '\u{1e}');
    push_i64(s, item.length);
    push_char(s, '\u{1e}');
    push_i64(s, item.width);
    push_char(s, '\u{1e}');
    push_str(s, item.var.as_str());
    push_char(s, '\u{1e}');
    push_str(s, item.colour.as_str());
    push_char(s, '\u{1e}');
    push_char(s, if item.recycleable { '1' } else { '0' });
    push_char(s, '\u{1e}');
    push_str(s, item.sprite.as_str());
    push_char(s, '\u{1e}');
    push_char(s, '/');
    assert(s@ =~= before + floor_tail(*item));
}

fn push_hand_line(s: &mut String, item: &HandItem, slot: usize)
    ensures
        final(s)@ == old(s)@ + hand_line(*item, slot as nat),
{
    let ghost before = s@;
    push_hand_head(s, item, slot);
    if item.type_id == 0 {
        push_wall_tail(s, item);
    } else {
        push_floor_tail(s, item);
    }
    assert(s@ =~= before + hand_line(*item, slot as nat));
}

/// The hand packet for the items shown, the first in slot `first_slot`, of
/// a hand of `total` items (see `hand_packet_spec`).
pub fn hand_packet(items: &Vec<HandItem>, first_slot: usize, total: usize) -> (r: String)
    requires
        first_slot + items@.len() <= usize::MAX,
    ensures
        r@ == hand_packet_spec(items@, first_slot as nat, total as nat),
{
    let mut s = owned("BL");
    proof {
        reveal_strlit("BL");
    }
    let ghost head = s@;
    let n = items.len();
    let mut i: usize = 0;
    while i < n
        invariant
            n == items@.len(),
            first_slot + n <= usize::MAX,
            i <= n,
            s@ == head + hand_lines(items@.take(i as int), first_slot as nat),
        decreases n - i,
    {
        push_hand_line(&mut s, &items[i], first_slot + i);
        assert(items@.take(i + 1).drop_last() =~= items@.take(i as int));
        i += 1;
    }
    assert(items@.take(n as int) =~= items@);
    push_char(&mut s, '\r');
    push_u64(&mut s, total as u64);
    s
}

} // verus!
