//! The messenger: how a buddy is shown, the buddy list, friend requests and
//! the presence updates that tell a user which buddies came, went or moved.
use vstd::prelude::*;
use std::collections::HashMap;

use crate::codec::{push_vl64, vl64_text};
use crate::navigator::{push_vl, vl, vl_ok};
use crate::text::{int_text, push_char, push_i64, push_str};

verus! {

broadcast use vstd::std_specs::hash::group_hash_axioms;

/// A buddy as the messenger shows it: id and name, whether the buddy is
/// online, and if so whether in a room and with which figure.
#[derive(Debug, Clone)]
pub struct Buddy {
    pub user_id: i64,
    pub name: String,
    pub online: bool,
    pub in_room: bool,
    pub figure: String,
}

/// A buddy's text: the id, the name when asked for, then `II`, `I` or `H`
/// for in a room or not, and the figure for an online buddy, or `IHH` for
/// one offline, and a closing `\u{2}H`.
pub open spec fn buddy_spec(b: Buddy, include_username: bool) -> Seq<char> {
    vl(b.user_id as int) + (if include_username {
        b.name@ + seq!['\u{2}']
    } else {
        Seq::empty()
    }) + (if b.online {
        seq!['I', 'I', if b.in_room { 'I' } else { 'H' }] + b.figure@
    } else {
        seq!['I', 'H', 'H']
    }) + seq!['\u{2}', 'H']
}

/// A buddy's text (see `buddy_spec`).
pub fn to_legacy_string(b: &Buddy, include_username: bool) -> (r: String)
    requires
        vl_ok(b.user_id as int),
    ensures
        r@ == buddy_spec(*b, include_username),
{
    let mut s = String::new();
    push_vl(&mut s, b.user_id);
    if include_username {
        push_str(&mut s, b.name.as_str());
        push_char(&mut s, '\u{2}');
    }
    if b.online {
        push_char(&mut s, 'I');
        push_char(&mut s, 'I');
        push_char(&mut s, if b.in_room { 'I' } else { 'H' });
        push_str(&mut s, b.figure.as_str());
    } else {
        push_char(&mut s, 'I');
        push_char(&mut s, 'H');
        push_char(&mut s, 'H');
    }
    push_char(&mut s, '\u{2}');
    push_char(&mut s, 'H');
    assert(s@ =~= buddy_spec(*b, include_username));
    s
}

/// The texts of the first `n` buddies, names included.
pub open spec fn buddies_spec(buddies: Seq<Buddy>, n: int) -> Seq<char>
    decreases n,
{
    if n <= 0 {
        Seq::empty()
    } else {
        buddies_spec(buddies, n - 1) + buddy_spec(buddies[n - 1], true)
    }
}

/// Whether every buddy's id can be written, and their number.
pub open spec fn buddies_fit(buddies: Seq<Buddy>) -> bool {
    &&& vl_ok(buddies.len() as int)
    &&& forall|i: int| 0 <= i < buddies.len() ==> vl_ok(#[trigger] buddies[i].user_id as int)
}

/// The buddy list: the limits 200, 200 and 600, `H`, the number of buddies,
/// each buddy with its name, and the limit 200 and `H` again.
pub open spec fn friend_list_spec(buddies: Seq<Buddy>) -> Seq<char> {
    vl64_text(200) + vl64_text(200) + vl64_text(600) + seq!['H'] + vl(buddies.len() as int) + buddies_spec(
        buddies,
        buddies.len() as int,
    ) + vl64_text(200) + seq!['H']
}

/// The buddy list (see `friend_list_spec`).
pub fn friend_list(buddies: &[Buddy]) -> (r: String)
    requires
        buddies_fit(buddies@),
    ensures
        r@ == friend_list_spec(buddies@),
{
    let mut s = String::new();
    push_vl64(&mut s, 200);
    push_vl64(&mut s, 200);
    push_vl64(&mut s, 600);
    push_char(&mut s, 'H');
    push_vl64(&mut s, crate::text::trunc_usize(buddies.len()));
    let ghost head = s@;
    let mut i: usize = 0;
    while i < buddies.len()
        invariant
            0 <= i <= buddies@.len(),
            buddies_fit(buddies@),
            s@ == head + buddies_spec(buddies@, i as int),
        decreases buddies.len() - i,
    {
        assert(vl_ok(buddies@[i as int].user_id as int));
        let t = to_legacy_string(&buddies[i], true);
        push_str(&mut s, t.as_str());
        i += 1;
        assert(s@ =~= head + buddies_spec(buddies@, i as int));
    }
    push_vl64(&mut s, 200);
    push_char(&mut s, 'H');
    assert(s@ =~= friend_list_spec(buddies@));
    s
}

/// A friend request: its id and who sent it.
#[derive(Debug, Clone)]
pub struct FriendRequest {
    pub request_id: i64,
    pub from_user_id: i64,
    pub from_name: String,
}

/// A friend request's text: the request id, the sender's name and the
/// sender's id in decimal, each text closed by `\u{2}`.
pub open spec fn request_spec(q: FriendRequest) -> Seq<char> {
    vl(q.request_id as int) + q.from_name@ + seq!['\u{2}'] + int_text(q.from_user_id as int) + seq!['\u{2}']
}

/// The texts of the first `n` requests.
pub open spec fn requests_spec(requests: Seq<FriendRequest>, n: int) -> Seq<char>
    decreases n,
{
    if n <= 0 {
        Seq::empty()
    } else {
        requests_spec(requests, n - 1) + request_spec(requests[n - 1])
    }
}

/// The pending friend requests: their number twice, then each request.
pub fn friend_requests(requests: &[FriendRequest]) -> (r: String)
    requires
        vl_ok(requests@.len() as int),
        forall|i: int| 0 <= i < requests@.len() ==> vl_ok(#[trigger] requests@[i].request_id as int),
    ensures
        r@ == vl(requests@.len() as int) + vl(requests@.len() as int) + requests_spec(
            requests@,
            requests@.len() as int,
        ),
{
    let mut s = String::new();
    let n: i32 = crate::text::trunc_usize(requests.len());
    push_vl64(&mut s, n);
    push_vl64(&mut s, n);
    let ghost head = s@;
    let mut i: usize = 0;
    while i < requests.len()
        invariant
            0 <= i <= requests@.len(),
            forall|i: int| 0 <= i < requests@.len() ==> vl_ok(#[trigger] requests@[i].request_id as int),
            s@ == head + requests_spec(requests@, i as int),
        decreases requests.len() - i,
    {
        let q = &requests[i];
        assert(vl_ok(requests@[i as int].request_id as int));
        let ghost before = s@;
        push_vl(&mut s, q.request_id);
        push_str(&mut s, q.from_name.as_str());
        push_char(&mut s, '\u{2}');
        push_i64(&mut s, q.from_user_id);
        push_char(&mut s, '\u{2}');
        assert(s@ =~= before + request_spec(requests@[i as int]));
        i += 1;
        assert(s@ =~= head + requests_spec(requests@, i as int));
    }
    s
}

/// What a user's buddies are told when the user comes online or is added:
/// `@MHII` and the user's text with the name.
pub fn buddy_added_packet(b: &Buddy) -> (r: String)
    requires
        vl_ok(b.user_id as int),
    ensures
        r@ == seq!['@', 'M', 'H', 'I', 'I'] + buddy_spec(*b, true),
{
    let mut s = String::new();
    push_str(&mut s, "@MHII");
    proof {
        reveal_strlit("@MHII");
    }
    let t = to_legacy_string(b, true);
    push_str(&mut s, t.as_str());
    assert(s@ =~= seq!['@', 'M', 'H', 'I', 'I'] + buddy_spec(*b, true));
    s
}

/// What a user is told when a buddy is removed: `@MHIM` and the buddy's id.
pub fn buddy_removed_packet(buddy_user_id: i64) -> (r: String)
    requires
        vl_ok(buddy_user_id as int),
    ensures
        r@ == seq!['@', 'M', 'H', 'I', 'M'] + vl(buddy_user_id as int),
{
    let mut s = String::new();
    push_str(&mut s, "@MHIM");
    proof {
        reveal_strlit("@MHIM");
    }
    push_vl(&mut s, buddy_user_id);
    assert(s@ =~= seq!['@', 'M', 'H', 'I', 'M'] + vl(buddy_user_id as int));
    s
}

// ---------------------------------------------------------------- presence updates

/// What the messenger remembers of a buddy: online, and in a room.
pub open spec fn presence_of(b: Buddy) -> (bool, bool) {
    if b.online {
        (true, b.in_room)
    } else {
        (false, false)
    }
}

/// Going through the first `n` buddies with the presences last sent: how
/// many changed, their texts (`H` and the buddy without the name), and the
/// presences remembered afterwards. A buddy changed when its presence is
/// not the one remembered for its id.
pub open spec fn updates_spec(m: Map<i64, (bool, bool)>, buddies: Seq<Buddy>, n: int) -> (
    int,
    Seq<char>,
    Map<i64, (bool, bool)>,
)
    decreases n,
{
    if n <= 0 {
        (0, Seq::empty(), m)
    } else {
        let p = updates_spec(m, buddies, n - 1);
        let b = buddies[n - 1];
        let cur = presence_of(b);
        let changed = !(p.2.contains_key(b.user_id) && p.2[b.user_id] == cur);
        (
            if changed {
                p.0 + 1
            } else {
                p.0
            },
            if changed {
                p.1 + seq!['H'] + buddy_spec(b, false)
            } else {
                p.1
            },
            p.2.insert(b.user_id, cur),
        )
    }
}

proof fn lemma_updates_count(m: Map<i64, (bool, bool)>, buddies: Seq<Buddy>, n: int)
    requires
        0 <= n,
    ensures
        0 <= updates_spec(m, buddies, n).0 <= n,
    decreases n,
{
    if n > 0 {
        lemma_updates_count(m, buddies, n - 1);
    }
}

/// The presence updates of a user's buddies: `H`, how many buddies changed,
/// and each of them (see `updates_spec`); the presences sent are
/// remembered.
pub fn build_updates_packet(presence: &mut HashMap<i64, (bool, bool)>, buddies: &[Buddy]) -> (r: String)
    requires
        buddies@.len() <= i32::MAX,
        forall|i: int| 0 <= i < buddies@.len() ==> vl_ok(#[trigger] buddies@[i].user_id as int),
    ensures
        r@ == seq!['H'] + vl64_text(updates_spec(old(presence)@, buddies@, buddies@.len() as int).0)
            + updates_spec(old(presence)@, buddies@, buddies@.len() as int).1,
        final(presence)@ == updates_spec(old(presence)@, buddies@, buddies@.len() as int).2,
{
    let ghost start = presence@;
    let mut count: i32 = 0;
    let mut text = String::new();
    let mut i: usize = 0;
    while i < buddies.len()
        invariant
            0 <= i <= buddies@.len(),
            buddies@.len() <= i32::MAX,
            forall|i: int| 0 <= i < buddies@.len() ==> vl_ok(#[trigger] buddies@[i].user_id as int),
            count as int == updates_spec(start, buddies@, i as int).0,
            text@ == updates_spec(start, buddies@, i as int).1,
            presence@ == updates_spec(start, buddies@, i as int).2,
        decreases buddies.len() - i,
    {
        proof {
            lemma_updates_count(start, buddies@, i as int);
        }
        let b = &buddies[i];
        let cur: (bool, bool) = if b.online {
            (true, b.in_room)
        } else {
            (false, false)
        };
        let changed = match presence.get(&b.user_id) {
            Some(prev) => !(prev.0 == cur.0 && prev.1 == cur.1),
            None => true,
        };
        if changed {
            assert(vl_ok(buddies@[i as int].user_id as int));
            count = count + 1;
            push_char(&mut text, 'H');
            let t = to_legacy_string(b, false);
            push_str(&mut text, t.as_str());
        }
        presence.insert(b.user_id, cur);
        i += 1;
        assert(text@ =~= updates_spec(start, buddies@, i as int).1);
    }
    proof {
        lemma_updates_count(start, buddies@, buddies@.len() as int);
    }
    let mut s = String::new();
    push_char(&mut s, 'H');
    push_vl64(&mut s, count);
    push_str(&mut s, text.as_str());
    assert(s@ =~= seq!['H'] + vl64_text(count as int) + text@);
    s
}

/// Whether buddies with the same id have the same presence, as they do when
/// each is looked up by its id.
pub open spec fn presence_consistent(buddies: Seq<Buddy>) -> bool {
    forall|i: int, j: int|
        0 <= i < buddies.len() && 0 <= j < buddies.len() && buddies[i].user_id == buddies[j].user_id
            ==> presence_of(buddies[i]) == presence_of(buddies[j])
}

proof fn lemma_updates_remember(m: Map<i64, (bool, bool)>, buddies: Seq<Buddy>, n: int)
    requires
        0 <= n <= buddies.len(),
        presence_consistent(buddies),
    ensures
        forall|i: int|
            0 <= i < n ==> updates_spec(m, buddies, n).2.contains_key(#[trigger] buddies[i].user_id)
                && updates_spec(m, buddies, n).2[buddies[i].user_id] == presence_of(buddies[i]),
    decreases n,
{
    if n > 0 {
        lemma_updates_remember(m, buddies, n - 1);
        assert forall|i: int| 0 <= i < n implies updates_spec(m, buddies, n).2.contains_key(
            #[trigger] buddies[i].user_id,
        ) && updates_spec(m, buddies, n).2[buddies[i].user_id] == presence_of(buddies[i]) by {
            if i < n - 1 && buddies[i].user_id == buddies[n - 1].user_id {
                assert(presence_of(buddies[i]) == presence_of(buddies[n - 1]));
            }
        }
    }
}

proof fn lemma_updates_settled(m: Map<i64, (bool, bool)>, buddies: Seq<Buddy>, n: int)
    requires
        0 <= n <= buddies.len(),
        forall|i: int|
            0 <= i < buddies.len() ==> m.contains_key(#[trigger] buddies[i].user_id) && m[buddies[i].user_id]
                == presence_of(buddies[i]),
    ensures
        updates_spec(m, buddies, n) == (0int, Seq::<char>::empty(), m),
    decreases n,
{
    if n > 0 {
        lemma_updates_settled(m, buddies, n - 1);
        let b = buddies[n - 1];
        assert(m.contains_key(b.user_id));
        assert(m.insert(b.user_id, presence_of(b)) =~= m);
    }
}

/// Presence updates report only changes: once the buddies' presences were
/// sent, sending again while none changed reports no buddy and remembers
/// the same.
pub proof fn law_updates_report_only_changes(m: Map<i64, (bool, bool)>, buddies: Seq<Buddy>)
    requires
        presence_consistent(buddies),
    ensures
        ({
            let first = updates_spec(m, buddies, buddies.len() as int).2;
            updates_spec(first, buddies, buddies.len() as int) == (0int, Seq::<char>::empty(), first)
        }),
{
    let n = buddies.len() as int;
    lemma_updates_remember(m, buddies, n);
    lemma_updates_settled(updates_spec(m, buddies, n).2, buddies, n);
}

// ---------------------------------------------------------------- friends

/// A user's friends: those the user befriended, in order, then those who
/// befriended the user and are not listed yet, in order.
pub open spec fn friend_ids_spec(forward: Seq<i64>, reverse: Seq<i64>, n: int) -> Seq<i64>
    decreases n,
{
    if n <= 0 {
        forward
    } else {
        let prev = friend_ids_spec(forward, reverse, n - 1);
        if prev.contains(reverse[n - 1]) {
            prev
        } else {
            prev.push(reverse[n - 1])
        }
    }
}

/// A user's friends (see `friend_ids_spec`).
pub fn get_user_friend_ids(forward: &[i64], reverse: &[i64]) -> (r: Vec<i64>)
    ensures
        r@ == friend_ids_spec(forward@, reverse@, reverse@.len() as int),
{
    let mut ids: Vec<i64> = Vec::new();
    let mut k: usize = 0;
    while k < forward.len()
        invariant
            0 <= k <= forward@.len(),
            ids@ == forward@.subrange(0, k as int),
        decreases forward.len() - k,
    {
        ids.push(forward[k]);
        k += 1;
        assert(ids@ =~= forward@.subrange(0, k as int));
    }
    assert(forward@.subrange(0, forward@.len() as int) =~= forward@);
    let mut i: usize = 0;
    while i < reverse.len()
        invariant
            0 <= i <= reverse@.len(),
            ids@ == friend_ids_spec(forward@, reverse@, i as int),
        decreases reverse.len() - i,
    {
        let id = reverse[i];
        let found = crate::trades::contains_item(&ids, id);
        if !found {
            ids.push(id);
        }
        i += 1;
    }
    ids
}

/// Every friend is listed once when the user befriended each at most once.
pub proof fn law_friend_ids_distinct(forward: Seq<i64>, reverse: Seq<i64>)
    requires
        forward.no_duplicates(),
    ensures
        friend_ids_spec(forward, reverse, reverse.len() as int).no_duplicates(),
        forall|x: i64| forward.contains(x) || reverse.contains(x) <==> friend_ids_spec(forward, reverse, reverse.len() as int).contains(x),
{
    lemma_friend_ids(forward, reverse, reverse.len() as int);
    assert(reverse.subrange(0, reverse.len() as int) =~= reverse);
}

proof fn lemma_push_contains(s: Seq<i64>, y: i64, x: i64)
    ensures
        s.push(y).contains(x) <==> s.contains(x) || x == y,
{
    if s.push(y).contains(x) {
        let w = choose|w: int| 0 <= w < s.push(y).len() && s.push(y)[w] == x;
        if w < s.len() {
            assert(s[w] == x);
        }
    }
    if s.contains(x) {
        let w = choose|w: int| 0 <= w < s.len() && s[w] == x;
        assert(s.push(y)[w] == x);
    }
    if x == y {
        assert(s.push(y)[s.len() as int] == y);
    }
}

proof fn lemma_friend_ids(forward: Seq<i64>, reverse: Seq<i64>, n: int)
    requires
        forward.no_duplicates(),
        0 <= n <= reverse.len(),
    ensures
        friend_ids_spec(forward, reverse, n).no_duplicates(),
        forall|x: i64| forward.contains(x) || reverse.subrange(0, n).contains(x) <==> friend_ids_spec(forward, reverse, n).contains(x),
    decreases n,
{
    if n == 0 {
        assert forall|x: i64| !reverse.subrange(0, 0).contains(x) by {}
    } else {
        lemma_friend_ids(forward, reverse, n - 1);
        let prev = friend_ids_spec(forward, reverse, n - 1);
        let y = reverse[n - 1];
        assert(reverse.subrange(0, n) =~= reverse.subrange(0, n - 1).push(y));
        assert forall|x: i64| forward.contains(x) || reverse.subrange(0, n).contains(x) <==> friend_ids_spec(forward, reverse, n).contains(x) by {
            lemma_push_contains(reverse.subrange(0, n - 1), y, x);
            lemma_push_contains(prev, y, x);
            assert(forward.contains(x) || reverse.subrange(0, n - 1).contains(x) <==> prev.contains(x));
            assert(friend_ids_spec(forward, reverse, n) == if prev.contains(y) {
                prev
            } else {
                prev.push(y)
            });
        }
        if !prev.contains(y) {
            let t = prev.push(y);
            assert forall|a: int, b: int| 0 <= a < t.len() && 0 <= b < t.len() && a != b implies t[a] != t[b] by {
                if a == prev.len() as int {
                    assert(t[b] == prev[b]);
                } else if b == prev.len() as int {
                    assert(t[a] == prev[a]);
                }
            }
        }
    }
}

} // verus!
