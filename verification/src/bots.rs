//! Room bots: the chat triggers they answer to, and the choices they make
//! from their lists of replies and walking spots.
use vstd::prelude::*;
use crate::text::{to_chars, chars_eq};

verus! {

/// Words a bot reacts to, with the replies it may give.
#[derive(Debug, Clone)]
pub struct ChatTrigger {
    pub words: Vec<String>,
    pub replies: Vec<String>,
    pub serve_replies: Vec<String>,
    pub serve_item: String,
}

impl Default for ChatTrigger {
    /// A trigger with no words, replies or item.
    fn default() -> (r: Self)
        ensures
            r.words@.len() == 0,
            r.replies@.len() == 0,
            r.serve_replies@.len() == 0,
            r.serve_item@.len() == 0,
    {
        ChatTrigger {
            words: Vec::new(),
            replies: Vec::new(),
            serve_replies: Vec::new(),
            serve_item: String::new(),
        }
    }
}

/// A text without its trailing question marks.
pub open spec fn trim_questions(s: Seq<char>) -> Seq<char>
    decreases s.len(),
{
    if s.len() > 0 && s.last() == '?' {
        trim_questions(s.drop_last())
    } else {
        s
    }
}

/// A character in ASCII lower case.
pub open spec fn ascii_lower(c: char) -> char {
    if 'A' <= c && c <= 'Z' {
        ((c as u32) + 32) as char
    } else {
        c
    }
}

/// A text in ASCII lower case.
pub open spec fn ascii_lower_text(s: Seq<char>) -> Seq<char> {
    Seq::new(s.len(), |i: int| ascii_lower(s[i]))
}

/// `c.to_ascii_lowercase()`.
pub fn lower_char(c: char) -> (r: char)
    ensures
        r == ascii_lower(c),
{
    if 'A' <= c && c <= 'Z' {
        let b = (c as u8) + 32;
        b as char
    } else {
        c
    }
}

/// A text picked from a list by a seed: the one at `seed` modulo the list's
/// length, or nothing from an empty list.
pub open spec fn choose_spec(values: Seq<String>, seed: u64) -> Seq<char> {
    if values.len() == 0 {
        Seq::empty()
    } else {
        values[(seed as usize) as int % values.len() as int]@
    }
}

/// Picks a text from a list by a seed (see `choose_spec`).
pub fn choose_string(values: &Vec<String>, seed: u64) -> (r: String)
    ensures
        r@ == choose_spec(values@, seed),
{
    if values.len() == 0 {
        String::new()
    } else {
        let i = (seed as usize) % values.len();
        values[i].clone()
    }
}

impl ChatTrigger {
    /// Whether a spoken word is one of the trigger's words, after dropping
    /// trailing question marks and lowering ASCII letters.
    pub fn contains_word(&self, word: &str) -> (r: bool)
        ensures
            r == exists|i: int| 0 <= i < self.words@.len() && #[trigger] self.words@[i]@
                == ascii_lower_text(trim_questions(word@)),
    {
        let cs = to_chars(word);
        let mut end = cs.len();
        assert(cs@.take(end as int) =~= word@);
        while end > 0 && cs[end - 1] == '?'
            invariant
                end <= cs@.len(),
                trim_questions(word@) == trim_questions(cs@.take(end as int)),
            decreases end,
        {
            assert(cs@.take(end as int).drop_last() =~= cs@.take(end - 1));
            end -= 1;
        }
        assert(trim_questions(cs@.take(end as int)) == cs@.take(end as int));
        let mut lowered: Vec<char> = Vec::new();
        let mut i: usize = 0;
        while i < end
            invariant
                end <= cs@.len(),
                0 <= i <= end,
                lowered@ =~= ascii_lower_text(cs@.take(end as int)).take(i as int),
            decreases end - i,
        {
            lowered.push(lower_char(cs[i]));
            i += 1;
        }
        assert(lowered@ =~= ascii_lower_text(trim_questions(word@)));
        let n = self.words.len();
        let mut k: usize = 0;
        while k < n
            invariant
                n == self.words@.len(),
                0 <= k <= n,
                lowered@ == ascii_lower_text(trim_questions(word@)),
                forall|j: int| 0 <= j < k ==> self.words@[j]@ != lowered@,
            decreases n - k,
        {
            let w = to_chars(self.words[k].as_str());
            if chars_eq(w.as_slice(), lowered.as_slice()) {
                return true;
            }
            k += 1;
        }
        false
    }

    /// A reply picked by the seed.
    pub fn reply(&self, seed: u64) -> (r: String)
        ensures
            r@ == choose_spec(self.replies@, seed),
    {
        choose_string(&self.replies, seed)
    }

    /// A reply for serving the item, picked by the seed.
    pub fn serve_reply(&self, seed: u64) -> (r: String)
        ensures
            r@ == choose_spec(self.serve_replies@, seed),
    {
        choose_string(&self.serve_replies, seed)
    }
}

/// Walking distance between a spot and a tile.
pub open spec fn walk_distance(c: (i32, i32), x: i32, y: i32) -> int {
    let dx = c.0 - x;
    let dy = c.1 - y;
    (if dx < 0 { -dx } else { dx }) + (if dy < 0 { -dy } else { dy })
}

/// The distance of a spot can be computed in `i32`.
pub open spec fn walk_distance_fits(c: (i32, i32), x: i32, y: i32) -> bool {
    &&& i32::MIN < c.0 - x <= i32::MAX
    &&& i32::MIN < c.1 - y <= i32::MAX
    &&& walk_distance(c, x, y) <= i32::MAX
}

/// `v.abs()`.
fn abs_i32(v: i32) -> (r: i32)
    requires
        v != i32::MIN,
    ensures
        r == (if v < 0 { -v } else { v as int }),
{
    if v < 0 { -v } else { v }
}

/// The first of the spots nearest to the tile.
pub open spec fn first_nearest(cs: Seq<(i32, i32)>, x: i32, y: i32) -> int
    decreases cs.len(),
{
    if cs.len() <= 1 {
        0
    } else {
        let k = first_nearest(cs.drop_last(), x, y);
        if walk_distance(cs.last(), x, y) < walk_distance(cs[k], x, y) {
            cs.len() - 1
        } else {
            k
        }
    }
}

proof fn lemma_first_nearest_bound(cs: Seq<(i32, i32)>, x: i32, y: i32)
    ensures
        cs.len() > 0 ==> 0 <= first_nearest(cs, x, y) < cs.len(),
    decreases cs.len(),
{
    if cs.len() > 1 {
        lemma_first_nearest_bound(cs.drop_last(), x, y);
    }
}

/// The bot's walking spot nearest to a tile (the first such spot), unless
/// that spot has a negative x.
pub fn closest_walk_coord_to(coords: &Vec<(i32, i32)>, x: i32, y: i32) -> (r: Option<(i32, i32)>)
    requires
        forall|i: int| 0 <= i < coords@.len() ==> walk_distance_fits(#[trigger] coords@[i], x, y),
    ensures
        coords@.len() == 0 ==> r is None,
        coords@.len() > 0 ==> r == (if coords@[first_nearest(coords@, x, y)].0 >= 0 {
            Some(coords@[first_nearest(coords@, x, y)])
        } else {
            None
        }),
{
    let n = coords.len();
    if n == 0 {
        return None;
    }
    let mut best: usize = 0;
    let c0 = coords[0];
    assert(walk_distance_fits(coords@[0], x, y));
    let mut best_d: i32 = abs_i32(c0.0 - x) + abs_i32(c0.1 - y);
    let mut i: usize = 1;
    assert(coords@.take(1).len() == 1);
    while i < n
        invariant
            n == coords@.len(),
            1 <= i <= n,
            best < i,
            forall|j: int| 0 <= j < coords@.len() ==> walk_distance_fits(#[trigger] coords@[j], x, y),
            best == first_nearest(coords@.take(i as int), x, y),
            best_d == walk_distance(coords@[best as int], x, y),
        decreases n - i,
    {
        let ghost tk = coords@.take(i + 1);
        assert(tk.drop_last() =~= coords@.take(i as int));
        assert(tk.last() == coords@[i as int]);
        proof {
            lemma_first_nearest_bound(coords@.take(i as int), x, y);
        }
        assert(tk[best as int] == coords@[best as int]);
        let c = coords[i];
        assert(walk_distance_fits(coords@[i as int], x, y));
        let d = abs_i32(c.0 - x) + abs_i32(c.1 - y);
        if d < best_d {
            best = i;
            best_d = d;
        }
        i += 1;
    }
    assert(coords@.take(n as int) =~= coords@);
    let b = coords[best];
    if b.0 >= 0 {
        Some(b)
    } else {
        None
    }
}

/// An index below `count` derived from the bot, its room id and a salt.
pub open spec fn seeded_index_spec(bot_id: i64, room_uid: i64, count: usize, salt: u64) -> int {
    if count == 0 {
        0
    } else {
        let mixed = (((bot_id as u64) as int * 1103515245 + (room_uid as u64) as int + salt as int)
            % 0x1_0000_0000_0000_0000) as u64;
        (mixed as usize) as int % count as int
    }
}

/// An index below `count` derived from the bot, its room id and a salt,
/// with wrapping 64-bit arithmetic; 0 when `count` is 0.
pub fn seeded_index(bot_id: i64, room_uid: i64, count: usize, salt: u64) -> (r: usize)
    ensures
        r == seeded_index_spec(bot_id, room_uid, count, salt),
        count > 0 ==> r < count,
{
    if count == 0 {
        return 0;
    }
    let a = (bot_id as u64).wrapping_mul(1103515245);
    let b = a.wrapping_add(room_uid as u64);
    let c = b.wrapping_add(salt);
    proof {
        let m = 0x1_0000_0000_0000_0000int;
        let x = (bot_id as u64) as int * 1103515245;
        assert(a as int == x % m);
        assert(b as int == (a as int + (room_uid as u64) as int) % m);
        assert(c as int == (b as int + salt as int) % m);
        vstd::arithmetic::div_mod::lemma_add_mod_noop(x, (room_uid as u64) as int, m);
        vstd::arithmetic::div_mod::lemma_add_mod_noop(x + (room_uid as u64) as int, salt as int, m);
        vstd::arithmetic::div_mod::lemma_mod_twice(x + (room_uid as u64) as int, m);
        vstd::arithmetic::div_mod::lemma_mod_twice(salt as int, m);
        vstd::arithmetic::div_mod::lemma_add_mod_noop(b as int, salt as int, m);
    }
    (c as usize) % count
}

} // verus!
