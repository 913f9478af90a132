//! Trading between two users in a room: who trades with whom, what each side
//! offers and whether it accepted, and the trade windows' text.
use vstd::prelude::*;
use std::collections::HashMap;

use crate::state::TradeState;
use crate::text::{int_text, push_char, push_i64, push_str};

verus! {

broadcast use vstd::std_specs::hash::group_hash_axioms;

/// One side of a trade as values: the partner's user id, the partner's
/// room uid, whether this side accepted, and the items it offers.
pub type TradeSide = (i64, i64, bool, Seq<i64>);

/// The values of one side of a trade.
pub open spec fn side_of(t: TradeState) -> TradeSide {
    (t.partner_user_id, t.partner_room_uid, t.accepted, t.item_ids@)
}

/// The most items one side can offer.
pub const MAX_TRADE_ITEMS: usize = 65;

/// The trades under way, by user id; both sides of a trade have an entry.
#[derive(Debug)]
pub struct TradeBook {
    pub trades: HashMap<i64, TradeState>,
}

impl View for TradeBook {
    type V = Map<i64, TradeSide>;

    open spec fn view(&self) -> Map<i64, TradeSide> {
        self.trades@.map_values(|t: TradeState| side_of(t))
    }
}

/// The book after `user` opens a trade with `partner`: both sides start with
/// nothing offered and nothing accepted. Nothing changes when `user` already
/// trades, trades with themself, or the partner is busy trading.
pub open spec fn start_spec(
    m: Map<i64, TradeSide>,
    user: i64,
    user_room_uid: i64,
    partner: i64,
    partner_room_uid: i64,
    partner_busy: bool,
) -> Map<i64, TradeSide> {
    if m.contains_key(user) || partner == user || partner_busy {
        m
    } else {
        m.insert(user, (partner, partner_room_uid, false, Seq::empty())).insert(
            partner,
            (user, user_room_uid, false, Seq::empty()),
        )
    }
}

/// Whether `user` may put `item` in the trade: the user trades with a known
/// partner, the item is a real one not offered yet, and the side is not full.
pub open spec fn offer_allowed(m: Map<i64, TradeSide>, user: i64, item: i64) -> bool {
    &&& item > 0
    &&& m.contains_key(user)
    &&& m[user].0 > 0
    &&& m[user].1 >= 0
    &&& m[user].3.len() < MAX_TRADE_ITEMS
    &&& !m[user].3.contains(item)
}

/// `m` with the acceptance of `user`'s side set to `accepted`, where `user`
/// has a side.
pub open spec fn with_accepted(m: Map<i64, TradeSide>, user: i64, accepted: bool) -> Map<i64, TradeSide> {
    if m.contains_key(user) {
        m.insert(user, (m[user].0, m[user].1, accepted, m[user].3))
    } else {
        m
    }
}

/// The book after `user` offers `item`: the item joins the user's side and
/// both sides' acceptance is withdrawn. Nothing changes when the offer is not
/// allowed.
pub open spec fn offer_spec(m: Map<i64, TradeSide>, user: i64, item: i64) -> Map<i64, TradeSide> {
    if offer_allowed(m, user, item) {
        let s = m[user];
        with_accepted(m.insert(user, (s.0, s.1, false, s.3.push(item))), s.0, false)
    } else {
        m
    }
}

/// Whether `user` has a side whose partner is in a room (`decline`, `accept`
/// and giving up a trade act only then).
pub open spec fn trade_live(m: Map<i64, TradeSide>, user: i64) -> bool {
    m.contains_key(user) && m[user].1 >= 0
}

/// The book after `user` declines: both sides' acceptance is withdrawn.
pub open spec fn decline_spec(m: Map<i64, TradeSide>, user: i64) -> Map<i64, TradeSide> {
    if trade_live(m, user) {
        with_accepted(with_accepted(m, user, false), m[user].0, false)
    } else {
        m
    }
}

/// The book after `user` accepts: the user's side is accepted.
pub open spec fn accept_spec(m: Map<i64, TradeSide>, user: i64) -> Map<i64, TradeSide> {
    if trade_live(m, user) {
        with_accepted(m, user, true)
    } else {
        m
    }
}

/// What accepting completes: when the partner had accepted already, the
/// items of the user's side and of the partner's side, which change owners.
pub open spec fn accept_result(m: Map<i64, TradeSide>, user: i64) -> Option<(Seq<i64>, Seq<i64>)> {
    if trade_live(m, user) && m.contains_key(m[user].0) && m[m[user].0].2 {
        Some((m[user].3, m[m[user].0].3))
    } else {
        None
    }
}

/// The book after the trade of `user` ends: both sides are gone.
pub open spec fn abort_spec(m: Map<i64, TradeSide>, user: i64) -> Map<i64, TradeSide> {
    if m.contains_key(user) {
        m.remove(user).remove(m[user].0)
    } else {
        m
    }
}

impl TradeBook {
    /// No trades.
    pub fn new() -> (r: Self)
        ensures
            r@ == Map::<i64, TradeSide>::empty(),
    {
        let r = TradeBook { trades: HashMap::new() };
        assert(r@ =~= Map::<i64, TradeSide>::empty());
        r
    }

    /// The side of `user`, if the user trades.
    pub fn get(&self, user_id: i64) -> (r: Option<&TradeState>)
        ensures
            match r {
                Some(t) => self@.contains_key(user_id) && side_of(*t) == self@[user_id],
                None => !self@.contains_key(user_id),
            },
    {
        self.trades.get(&user_id)
    }

    /// Puts a side in the book.
    fn put(&mut self, user_id: i64, t: TradeState)
        ensures
            final(self)@ == old(self)@.insert(user_id, side_of(t)),
    {
        self.trades.insert(user_id, t);
        assert(self@ =~= old(self)@.insert(user_id, side_of(t)));
    }

    /// Takes a side out of the book.
    fn take(&mut self, user_id: i64) -> (r: Option<TradeState>)
        ensures
            final(self)@ == old(self)@.remove(user_id),
            match r {
                Some(t) => old(self)@.contains_key(user_id) && side_of(t) == old(self)@[user_id],
                None => !old(self)@.contains_key(user_id),
            },
    {
        let r = self.trades.remove(&user_id);
        assert(self@ =~= old(self)@.remove(user_id));
        r
    }

    /// Sets the acceptance of `user`'s side, where there is one.
    fn set_accepted(&mut self, user_id: i64, accepted: bool)
        ensures
            final(self)@ == with_accepted(old(self)@, user_id, accepted),
    {
        match self.take(user_id) {
            Some(t) => {
                let t2 = TradeState {
                    partner_user_id: t.partner_user_id,
                    partner_room_uid: t.partner_room_uid,
                    accepted,
                    item_ids: t.item_ids,
                };
                self.put(user_id, t2);
                assert(self@ =~= with_accepted(old(self)@, user_id, accepted));
            },
            None => {
                assert(self@ =~= old(self)@);
            },
        }
    }

    /// Opens a trade between `user_id` and `partner_user_id` (see
    /// `start_spec`); true when it was opened.
    pub fn start(
        &mut self,
        user_id: i64,
        user_room_uid: i64,
        partner_user_id: i64,
        partner_room_uid: i64,
        partner_busy: bool,
    ) -> (r: bool)
        ensures
            r == (!old(self)@.contains_key(user_id) && partner_user_id != user_id && !partner_busy),
            final(self)@ == start_spec(old(self)@, user_id, user_room_uid, partner_user_id, partner_room_uid, partner_busy),
    {
        if self.trades.contains_key(&user_id) || partner_user_id == user_id || partner_busy {
            return false;
        }
        let mine = TradeState {
            partner_user_id,
            partner_room_uid,
            accepted: false,
            item_ids: Vec::new(),
        };
        let theirs = TradeState {
            partner_user_id: user_id,
            partner_room_uid: user_room_uid,
            accepted: false,
            item_ids: Vec::new(),
        };
        self.put(user_id, mine);
        self.put(partner_user_id, theirs);
        proof {
            assert(side_of(mine).3 =~= Seq::<i64>::empty());
            assert(side_of(theirs).3 =~= Seq::<i64>::empty());
        }
        true
    }

    /// Puts `item_id` in the trade of `user_id` (see `offer_spec`); true when
    /// it went in.
    pub fn offer(&mut self, user_id: i64, item_id: i64) -> (r: bool)
        ensures
            r == offer_allowed(old(self)@, user_id, item_id),
            final(self)@ == offer_spec(old(self)@, user_id, item_id),
    {
        if item_id <= 0 {
            return false;
        }
        let t = match self.take(user_id) {
            Some(t) => t,
            None => {
                return false;
            },
        };
        let ghost before = old(self)@;
        if t.partner_user_id <= 0 || t.partner_room_uid < 0 || t.item_ids.len() >= MAX_TRADE_ITEMS
            || contains_item(&t.item_ids, item_id) {
            let ghost taken = self@;
            self.put(user_id, t);
            assert(self@ =~= before) by {
                assert(taken == before.remove(user_id));
            }
            return false;
        }
        let partner = t.partner_user_id;
        let mut items = t.item_ids;
        items.push(item_id);
        let t2 = TradeState {
            partner_user_id: partner,
            partner_room_uid: t.partner_room_uid,
            accepted: false,
            item_ids: items,
        };
        self.put(user_id, t2);
        self.set_accepted(partner, false);
        proof {
            let s = before[user_id];
            assert(side_of(t2) == (s.0, s.1, false, s.3.push(item_id)));
            assert(before.remove(user_id).insert(user_id, side_of(t2)) =~= before.insert(user_id, side_of(t2)));
        }
        true
    }

    /// Withdraws both sides' acceptance of the trade of `user_id` (see
    /// `decline_spec`).
    pub fn decline(&mut self, user_id: i64)
        ensures
            final(self)@ == decline_spec(old(self)@, user_id),
    {
        let partner = match self.trades.get(&user_id) {
            Some(t) => {
                if t.partner_room_uid < 0 {
                    return;
                }
                t.partner_user_id
            },
            None => {
                return;
            },
        };
        self.set_accepted(user_id, false);
        self.set_accepted(partner, false);
    }

    /// Accepts the trade of `user_id` (see `accept_spec`); when the partner
    /// had accepted already, the items of both sides, which then change
    /// owners (see `accept_result`).
    pub fn accept(&mut self, user_id: i64) -> (r: Option<(Vec<i64>, Vec<i64>)>)
        ensures
            final(self)@ == accept_spec(old(self)@, user_id),
            match r {
                Some(p) => accept_result(old(self)@, user_id) == Some((p.0@, p.1@)),
                None => accept_result(old(self)@, user_id).is_none(),
            },
    {
        let (partner, mine) = match self.trades.get(&user_id) {
            Some(t) => {
                if t.partner_room_uid < 0 {
                    return None;
                }
                (t.partner_user_id, copy_items(&t.item_ids))
            },
            None => {
                return None;
            },
        };
        let theirs = match self.trades.get(&partner) {
            Some(p) => {
                if p.accepted {
                    Some(copy_items(&p.item_ids))
                } else {
                    None
                }
            },
            None => None,
        };
        self.set_accepted(user_id, true);
        match theirs {
            Some(v) => Some((mine, v)),
            None => None,
        }
    }

    /// Ends the trade of `user_id`: both sides leave the book (see
    /// `abort_spec`). The partner's user id, when the user traded.
    pub fn abort(&mut self, user_id: i64) -> (r: Option<i64>)
        ensures
            final(self)@ == abort_spec(old(self)@, user_id),
            match r {
                Some(p) => old(self)@.contains_key(user_id) && p == old(self)@[user_id].0,
                None => !old(self)@.contains_key(user_id),
            },
    {
        match self.take(user_id) {
            Some(t) => {
                let partner = t.partner_user_id;
                self.take(partner);
                Some(partner)
            },
            None => None,
        }
    }
}

// ---------------------------------------------------------------- trade windows

/// An item in a trade, with what its template and row say of it.
#[derive(Debug, Clone)]
pub struct TradeItem {
    pub item_id: i64,
    pub type_id: u8,
    pub sprite: String,
    pub length: i64,
    pub width: i64,
    pub var: String,
    pub colour: String,
}

/// The text of the item at `index` of a trade: its id and position, `S` for
/// a floor item or `I` for a wall item, the sprite, for a floor item its
/// size and state, then the colour and the position again, each followed by
/// `\u{1e}`, and a closing `/`.
pub open spec fn trade_row_spec(t: TradeItem, index: int) -> Seq<char> {
    trade_row_head(t, index) + trade_row_size(t) + trade_row_tail(t, index)
}

/// The start of an item's text in a trade, up to its sprite.
pub open spec fn trade_row_head(t: TradeItem, index: int) -> Seq<char> {
    let sep = seq!['\u{1e}'];
    seq!['S', 'I'] + int_text(t.item_id as int) + sep + int_text(index) + sep
        + seq![if t.type_id > 0 { 'S' } else { 'I' }] + sep + int_text(t.item_id as int) + sep
        + t.sprite@ + sep
}

/// The size and state of a floor item in its text in a trade; nothing for a
/// wall item.
pub open spec fn trade_row_size(t: TradeItem) -> Seq<char> {
    let sep = seq!['\u{1e}'];
    if t.type_id > 0 {
        int_text(t.length as int) + sep + int_text(t.width as int) + sep + t.var@ + sep
    } else {
        Seq::empty()
    }
}

/// The end of an item's text in a trade: colour and position.
pub open spec fn trade_row_tail(t: TradeItem, index: int) -> Seq<char> {
    let sep = seq!['\u{1e}'];
    t.colour@ + sep + int_text(index) + sep + seq!['/']
}

/// The text of the first `n` items of a trade; an item with id 0 is left
/// out but keeps its position.
pub open spec fn trade_list_spec(items: Seq<TradeItem>, n: int) -> Seq<char>
    decreases n,
{
    if n <= 0 {
        Seq::empty()
    } else if items[n - 1].item_id == 0 {
        trade_list_spec(items, n - 1)
    } else {
        trade_list_spec(items, n - 1) + trade_row_spec(items[n - 1], n - 1)
    }
}

/// Appends the start of an item's text in a trade.
fn push_trade_row_head(s: &mut String, t: &TradeItem, index: i64)
    ensures
        final(s)@ == old(s)@ + trade_row_head(*t, index as int),
{
    push_char(s, 'S');
    push_char(s, 'I');
    push_i64(s, t.item_id);
    push_char(s, '\u{1e}');
    push_i64(s, index);
    push_char(s, '\u{1e}');
    push_char(s, if t.type_id > 0 { 'S' } else { 'I' });
    push_char(s, '\u{1e}');
    push_i64(s, t.item_id);
    push_char(s, '\u{1e}');
    push_str(s, t.sprite.as_str());
    push_char(s, '\u{1e}');
    assert(final(s)@ =~= old(s)@ + trade_row_head(*t, index as int));
}

/// Appends the size and state of a floor item.
fn push_trade_row_size(s: &mut String, t: &TradeItem)
    ensures
        final(s)@ == old(s)@ + trade_row_size(*t),
{
    if t.type_id > 0 {
        push_i64(s, t.length);
        push_char(s, '\u{1e}');
        push_i64(s, t.width);
        push_char(s, '\u{1e}');
        push_str(s, t.var.as_str());
        push_char(s, '\u{1e}');
    }
    assert(final(s)@ =~= old(s)@ + trade_row_size(*t));
}

/// Appends the end of an item's text in a trade.
fn push_trade_row_tail(s: &mut String, t: &TradeItem, index: i64)
    ensures
        final(s)@ == old(s)@ + trade_row_tail(*t, index as int),
{
    push_str(s, t.colour.as_str());
    push_char(s, '\u{1e}');
    push_i64(s, index);
    push_char(s, '\u{1e}');
    push_char(s, '/');
    assert(final(s)@ =~= old(s)@ + trade_row_tail(*t, index as int));
}

/// Appends the text of the item at `index` of a trade.
fn push_trade_row(s: &mut String, t: &TradeItem, index: i64)
    ensures
        final(s)@ == old(s)@ + trade_row_spec(*t, index as int),
{
    push_trade_row_head(s, t, index);
    push_trade_row_size(s, t);
    push_trade_row_tail(s, t, index);
    assert(final(s)@ =~= old(s)@ + trade_row_spec(*t, index as int));
}

/// The text of the items of one side of a trade (see `trade_list_spec`).
pub fn trade_item_list(items: &[TradeItem]) -> (r: String)
    requires
        items@.len() <= i64::MAX,
    ensures
        r@ == trade_list_spec(items@, items@.len() as int),
{
    let mut s = String::new();
    let mut i: usize = 0;
    while i < items.len()
        invariant
            0 <= i <= items@.len(),
            items@.len() <= i64::MAX,
            s@ == trade_list_spec(items@, i as int),
        decreases items.len() - i,
    {
        let t = &items[i];
        if t.item_id != 0 {
            push_trade_row(&mut s, t, i as i64);
        }
        i += 1;
    }
    s
}

/// `true` or `false`.
pub open spec fn bool_text(b: bool) -> Seq<char> {
    if b {
        seq!['t', 'r', 'u', 'e']
    } else {
        seq!['f', 'a', 'l', 's', 'e']
    }
}

/// The trade window of a user: `Al`, then the user's name, acceptance and
/// items, a `\r`, and the partner's name, acceptance and items, name and
/// acceptance each followed by a tab.
pub open spec fn trade_boxes_spec(
    user_name: Seq<char>,
    accepted: bool,
    items: Seq<char>,
    partner_name: Seq<char>,
    partner_accepted: bool,
    partner_items: Seq<char>,
) -> Seq<char> {
    seq!['A', 'l'] + user_name + seq!['\t'] + bool_text(accepted) + seq!['\t'] + items + seq!['\r']
        + partner_name + seq!['\t'] + bool_text(partner_accepted) + seq!['\t'] + partner_items
}

/// Appends `true` or `false`.
fn push_bool(s: &mut String, b: bool)
    ensures
        final(s)@ == old(s)@ + bool_text(b),
{
    if b {
        push_str(s, "true");
    } else {
        push_str(s, "false");
    }
    proof {
        reveal_strlit("true");
        reveal_strlit("false");
    }
    assert(final(s)@ =~= old(s)@ + bool_text(b));
}

/// The trade window of a user (see `trade_boxes_spec`); the item texts are
/// those of `trade_item_list`.
pub fn trade_boxes_packet(
    user_name: &str,
    accepted: bool,
    items: &str,
    partner_name: &str,
    partner_accepted: bool,
    partner_items: &str,
) -> (r: String)
    ensures
        r@ == trade_boxes_spec(user_name@, accepted, items@, partner_name@, partner_accepted, partner_items@),
{
    let mut s = String::new();
    push_char(&mut s, 'A');
    push_char(&mut s, 'l');
    push_str(&mut s, user_name);
    push_char(&mut s, '\t');
    push_bool(&mut s, accepted);
    push_char(&mut s, '\t');
    push_str(&mut s, items);
    push_char(&mut s, '\r');
    push_str(&mut s, partner_name);
    push_char(&mut s, '\t');
    push_bool(&mut s, partner_accepted);
    push_char(&mut s, '\t');
    push_str(&mut s, partner_items);
    assert(s@ =~= trade_boxes_spec(user_name@, accepted, items@, partner_name@, partner_accepted, partner_items@));
    s
}

// ---------------------------------------------------------------- laws

/// Whether `a` and `b` trade with each other, with both partners in a room.
pub open spec fn paired(m: Map<i64, TradeSide>, a: i64, b: i64) -> bool {
    &&& a != b
    &&& m.contains_key(a) && m.contains_key(b)
    &&& m[a].0 == b && m[b].0 == a
    &&& m[a].1 >= 0 && m[b].1 >= 0
}

/// Opening a trade pairs the two users, each with nothing offered and
/// nothing accepted.
pub proof fn law_start_pairs_users(
    m: Map<i64, TradeSide>,
    a: i64,
    a_room_uid: i64,
    b: i64,
    b_room_uid: i64,
)
    requires
        !m.contains_key(a),
        a != b,
        a_room_uid >= 0,
        b_room_uid >= 0,
    ensures
        ({
            let m2 = start_spec(m, a, a_room_uid, b, b_room_uid, false);
            &&& paired(m2, a, b)
            &&& !m2[a].2 && !m2[b].2
            &&& m2[a].3.len() == 0 && m2[b].3.len() == 0
        }),
{
}

/// Offering an item withdraws both sides' acceptance, and the item joins the
/// offering side.
pub proof fn law_offer_withdraws_acceptance(m: Map<i64, TradeSide>, user: i64, item: i64)
    requires
        offer_allowed(m, user, item),
    ensures
        ({
            let m2 = offer_spec(m, user, item);
            &&& m2.contains_key(user) && !m2[user].2
            &&& m2.contains_key(m[user].0) ==> !m2[m[user].0].2
            &&& m2[user].3 == m[user].3.push(item)
        }),
{
}

/// A trade completes when the second side accepts: after `a` accepts, `b`
/// accepting hands over `b`'s items and `a`'s items.
pub proof fn law_second_accept_completes(m: Map<i64, TradeSide>, a: i64, b: i64)
    requires
        paired(m, a, b),
    ensures
        accept_result(accept_spec(m, a), b) == Some((m[b].3, m[a].3)),
{
}

/// After an offer, neither side's accepting completes the trade until the
/// other accepts again.
pub proof fn law_offer_needs_new_acceptance(m: Map<i64, TradeSide>, a: i64, b: i64, item: i64)
    requires
        paired(m, a, b),
        offer_allowed(m, a, item),
    ensures
        accept_result(offer_spec(m, a, item), a).is_none(),
        accept_result(offer_spec(m, a, item), b).is_none(),
{
}

/// Ending a trade removes both sides.
pub proof fn law_abort_ends_both_sides(m: Map<i64, TradeSide>, a: i64)
    requires
        m.contains_key(a),
    ensures
        !abort_spec(m, a).contains_key(a),
        !abort_spec(m, a).contains_key(m[a].0),
{
}

/// A side never offers an item twice, nor more than the most items a side
/// can offer.
pub proof fn law_offers_distinct_and_bounded(m: Map<i64, TradeSide>, user: i64, item: i64)
    requires
        m.contains_key(user) ==> m[user].3.no_duplicates() && m[user].3.len() <= MAX_TRADE_ITEMS,
    ensures
        ({
            let m2 = offer_spec(m, user, item);
            m2.contains_key(user) ==> m2[user].3.no_duplicates() && m2[user].3.len() <= MAX_TRADE_ITEMS
        }),
{
    if offer_allowed(m, user, item) {
        let s = m[user].3;
        let t = s.push(item);
        assert forall|i: int, j: int| 0 <= i < t.len() && 0 <= j < t.len() && i != j implies t[i] != t[j] by {
            if i == s.len() as int {
                assert(s[j] == t[j]);
            } else if j == s.len() as int {
                assert(s[i] == t[i]);
            }
        }
    }
}

/// Whether `item_id` is among `items`.
pub(crate) fn contains_item(items: &Vec<i64>, item_id: i64) -> (r: bool)
    ensures
        r == items@.contains(item_id),
{
    let mut i: usize = 0;
    while i < items.len()
        invariant
            0 <= i <= items.len(),
            forall|j: int| 0 <= j < i ==> items@[j] != item_id,
        decreases items.len() - i,
    {
        if items[i] == item_id {
            assert(items@[i as int] == item_id);
            return true;
        }
        i += 1;
    }
    false
}

/// A copy of a list of item ids.
fn copy_items(items: &Vec<i64>) -> (r: Vec<i64>)
    ensures
        r@ == items@,
{
    let mut r: Vec<i64> = Vec::new();
    let mut i: usize = 0;
    while i < items.len()
        invariant
            0 <= i <= items.len(),
            r@ == items@.subrange(0, i as int),
        decreases items.len() - i,
    {
        r.push(items[i]);
        i += 1;
        assert(r@ =~= items@.subrange(0, i as int));
    }
    assert(items@.subrange(0, items@.len() as int) =~= items@);
    r
}

} // verus!
