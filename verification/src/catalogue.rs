//! Catalogue rules: where a wall item is hung, and what a purchase asks
//! for and costs.
use vstd::prelude::*;
use crate::text::{
    to_chars, split_chars, split_spec, strip_prefix_chars, strip_prefix_spec, parse_i32_chars,
    parse_int_spec, push_i64, int_text, push_char, push_chars, chars_eq, string_of, str_eq, parse_i64,
    push_str, nat_text, digits_value, all_digits, is_digit, digit_char,
};
use crate::mus::part_or_empty;
use crate::session::{text_after, text_after_spec};
use crate::strings::{get_string_part, string_part_spec};

verus! {

/// A wall coordinate as `str::parse::<i32>` reads it, kept only in `0..=200`.
pub open spec fn wall_coord(s: Seq<char>) -> Option<int> {
    match parse_int_spec(s, true, i32::MIN as int, i32::MAX as int) {
        Some(v) => if 0 <= v <= 200 { Some(v) } else { None },
        None => None,
    }
}

/// A wall position in its normal form `:w=X,Y l=X,Y side`, or empty when it
/// is malformed: three space-separated parts, side `l` or `r`, two
/// comma-separated coordinates after `:w=` and after `l=`, each in `0..=200`.
pub open spec fn wall_position_spec(s: Seq<char>) -> Seq<char> {
    let pos = split_spec(s, ' ');
    if pos.len() != 3 || (pos[2] != "l"@ && pos[2] != "r"@) {
        Seq::empty()
    } else {
        match (strip_prefix_spec(pos[0], ":w="@), strip_prefix_spec(pos[1], "l="@)) {
            (Some(w), Some(l)) => {
                let ws = split_spec(w, ',');
                let ls = split_spec(l, ',');
                if ws.len() != 2 || ls.len() != 2 {
                    Seq::empty()
                } else {
                    match (wall_coord(ws[0]), wall_coord(ws[1]), wall_coord(ls[0]), wall_coord(ls[1])) {
                        (Some(a), Some(b), Some(c), Some(d)) => ":w="@ + int_text(a) + seq![','] + int_text(b)
                            + " l="@ + int_text(c) + seq![','] + int_text(d) + seq![' '] + pos[2],
                        _ => Seq::empty(),
                    }
                }
            },
            _ => Seq::empty(),
        }
    }
}

fn wall_coord_exec(cs: &[char]) -> (r: Option<i32>)
    ensures
        r is None <==> wall_coord(cs@) is None,
        r matches Some(v) ==> wall_coord(cs@) == Some(v as int),
{
    match parse_i32_chars(cs) {
        Some(v) => if 0 <= v && v <= 200 { Some(v) } else { None },
        None => None,
    }
}

/// Checks and normalises a wall position (see `wall_position_spec`).
pub fn wall_position_ok(wall_position: &str) -> (r: String)
    ensures
        r@ == wall_position_spec(wall_position@),
{
    let cs = to_chars(wall_position);
    let pos = split_chars(cs.as_slice(), ' ');
    if pos.len() != 3 {
        return String::new();
    }
    let l_side = to_chars("l");
    let r_side = to_chars("r");
    if !chars_eq(pos[2].as_slice(), l_side.as_slice()) && !chars_eq(pos[2].as_slice(), r_side.as_slice()) {
        return String::new();
    }
    let wp = to_chars(":w=");
    let lp = to_chars("l=");
    let width_part = match strip_prefix_chars(pos[0].as_slice(), wp.as_slice()) {
        Some(v) => v,
        None => {
            return String::new();
        },
    };
    let length_part = match strip_prefix_chars(pos[1].as_slice(), lp.as_slice()) {
        Some(v) => v,
        None => {
            return String::new();
        },
    };
    let width = split_chars(width_part.as_slice(), ',');
    let length = split_chars(length_part.as_slice(), ',');
    if width.len() != 2 || length.len() != 2 {
        return String::new();
    }
    let a = wall_coord_exec(width[0].as_slice());
    let b = wall_coord_exec(width[1].as_slice());
    let c = wall_coord_exec(length[0].as_slice());
    let d = wall_coord_exec(length[1].as_slice());
    match (a, b, c, d) {
        (Some(a), Some(b), Some(c), Some(d)) => {
            let mut out = String::new();
            push_chars(&mut out, wp.as_slice());
            push_i64(&mut out, a as i64);
            push_char(&mut out, ',');
            push_i64(&mut out, b as i64);
            push_char(&mut out, ' ');
            push_chars(&mut out, lp.as_slice());
            push_i64(&mut out, c as i64);
            push_char(&mut out, ',');
            push_i64(&mut out, d as i64);
            push_char(&mut out, ' ');
            push_chars(&mut out, pos[2].as_slice());
            assert(" l="@ =~= seq![' '] + "l="@) by {
                reveal_strlit(" l=");
                reveal_strlit("l=");
            }
            assert(out@ =~= wall_position_spec(wall_position@));
            out
        },
        _ => String::new(),
    }
}

proof fn lemma_nat_text_digits(n: nat)
    ensures
        nat_text(n).len() >= 1,
        all_digits(nat_text(n)),
        digits_value(nat_text(n)) == n,
    decreases n,
{
    if n >= 10 {
        lemma_nat_text_digits(n / 10);
        let t = nat_text(n / 10);
        let d = (n % 10) as int;
        assert(nat_text(n).drop_last() =~= t);
        assert(digit_char(d) as int == 48 + d);
        assert(nat_text(n).last() == digit_char(d));
        assert(n == (n / 10) * 10 + d);
        assert(digits_value(nat_text(n)) == (digits_value(t) * 10 + (nat_text(n).last() as int - 48)) as nat);
    } else {
        assert(digit_char(n as int) as int == 48 + n);
        assert(nat_text(n).drop_last() =~= Seq::<char>::empty());
        assert(digits_value(Seq::<char>::empty()) == 0);
        assert(nat_text(n).last() == digit_char(n as int));
        assert(digits_value(nat_text(n)) == (digits_value(nat_text(n).drop_last()) * 10 + (nat_text(n).last() as int - 48)) as nat);
    }
}

proof fn lemma_coord_reads_back(v: int)
    requires
        0 <= v <= 200,
    ensures
        wall_coord(int_text(v)) == Some(v),
        !int_text(v).contains(' '),
        !int_text(v).contains(','),
{
    lemma_nat_text_digits(v as nat);
    let t = int_text(v);
    assert(t[0] != '+' && t[0] != '-') by {
        assert(is_digit(t[0]));
    }
    if t.contains(' ') {
        let i = choose|i: int| 0 <= i < t.len() && t[i] == ' ';
        assert(is_digit(t[i]));
    }
    if t.contains(',') {
        let i = choose|i: int| 0 <= i < t.len() && t[i] == ',';
        assert(is_digit(t[i]));
    }
}

proof fn lemma_split_no_sep(x: Seq<char>, sep: char)
    requires
        !x.contains(sep),
    ensures
        split_spec(x, sep) == seq![x],
    decreases x.len(),
{
    if x.len() > 0 {
        assert(!x.drop_last().contains(sep)) by {
            if x.drop_last().contains(sep) {
                let i = choose|i: int| 0 <= i < x.drop_last().len() && x.drop_last()[i] == sep;
                assert(x[i] == sep);
            }
        }
        lemma_split_no_sep(x.drop_last(), sep);
        assert(x.last() != sep) by {
            if x.last() == sep {
                assert(x[x.len() - 1] == sep);
            }
        }
        assert(x.drop_last().push(x.last()) =~= x);
    } else {
        assert(x =~= Seq::<char>::empty());
    }
}

proof fn lemma_split_concat(x: Seq<char>, sep: char, y: Seq<char>)
    requires
        !x.contains(sep),
    ensures
        split_spec(x + seq![sep] + y, sep) == seq![x] + split_spec(y, sep),
    decreases y.len(),
{
    crate::text::lemma_split_nonempty(y, sep);
    if y.len() == 0 {
        lemma_split_no_sep(x, sep);
        let z = x + seq![sep] + y;
        assert(z.drop_last() =~= x);
        assert(z.last() == sep);
        assert(split_spec(y, sep) == seq![Seq::<char>::empty()]);
        assert(seq![x].push(Seq::<char>::empty()) =~= seq![x] + seq![Seq::<char>::empty()]);
    } else {
        let y0 = y.drop_last();
        lemma_split_concat(x, sep, y0);
        crate::text::lemma_split_nonempty(y0, sep);
        let z = x + seq![sep] + y;
        assert(z.drop_last() =~= x + seq![sep] + y0);
        assert(z.last() == y.last());
        let r0 = split_spec(y0, sep);
        let r = seq![x] + r0;
        if y.last() == sep {
            assert(r.push(Seq::<char>::empty()) =~= seq![x] + r0.push(Seq::<char>::empty()));
        } else {
            assert(r.last() == r0.last());
            assert(r.update(r.len() - 1, r.last().push(y.last())) =~= seq![x] + r0.update(
                r0.len() - 1,
                r0.last().push(y.last()),
            ));
        }
    }
}

/// A wall position in normal form is its own normal form: checking the
/// result of a check gives it back.
pub proof fn law_wall_position_idempotent(s: Seq<char>)
    ensures
        wall_position_spec(wall_position_spec(s)) == wall_position_spec(s),
{
    let r = wall_position_spec(s);
    if r.len() == 0 {
        assert(split_spec(r, ' ') =~= seq![Seq::<char>::empty()]) by {
            lemma_split_no_sep(r, ' ');
        }
        assert(wall_position_spec(r) =~= r);
    } else {
        let pos = split_spec(s, ' ');
        let w = strip_prefix_spec(pos[0], ":w="@)->0;
        let l = strip_prefix_spec(pos[1], "l="@)->0;
        let ws = split_spec(w, ',');
        let ls = split_spec(l, ',');
        let a = wall_coord(ws[0])->0;
        let b = wall_coord(ws[1])->0;
        let c = wall_coord(ls[0])->0;
        let d = wall_coord(ls[1])->0;
        let side = pos[2];
        lemma_coord_reads_back(a);
        lemma_coord_reads_back(b);
        lemma_coord_reads_back(c);
        lemma_coord_reads_back(d);
        reveal_strlit(":w=");
        reveal_strlit(" l=");
        reveal_strlit("l=");
        reveal_strlit("l");
        reveal_strlit("r");
        let p0 = ":w="@ + int_text(a) + seq![','] + int_text(b);
        let p1 = "l="@ + int_text(c) + seq![','] + int_text(d);
        assert(r =~= p0 + seq![' '] + (p1 + seq![' '] + side));
        assert(!p0.contains(' ')) by {
            if p0.contains(' ') {
                let i = choose|i: int| 0 <= i < p0.len() && p0[i] == ' ';
                if 3 <= i < 3 + int_text(a).len() {
                    assert(int_text(a)[i - 3] == ' ');
                } else if 4 + int_text(a).len() <= i {
                    assert(int_text(b)[i - 4 - int_text(a).len()] == ' ');
                }
            }
        }
        assert(!p1.contains(' ')) by {
            if p1.contains(' ') {
                let i = choose|i: int| 0 <= i < p1.len() && p1[i] == ' ';
                if 2 <= i < 2 + int_text(c).len() {
                    assert(int_text(c)[i - 2] == ' ');
                } else if 3 + int_text(c).len() <= i {
                    assert(int_text(d)[i - 3 - int_text(c).len()] == ' ');
                }
            }
        }
        assert(!side.contains(' ')) by {
            if side.contains(' ') {
                let i = choose|i: int| 0 <= i < side.len() && side[i] == ' ';
            }
        }
        lemma_split_concat(p0, ' ', p1 + seq![' '] + side);
        lemma_split_concat(p1, ' ', side);
        lemma_split_no_sep(side, ' ');
        let pos2 = split_spec(r, ' ');
        assert(pos2 =~= seq![p0, p1, side]);
        assert(strip_prefix_spec(p0, ":w="@) == Some(int_text(a) + seq![','] + int_text(b))) by {
            assert(p0.subrange(0, 3) =~= ":w="@);
            assert(p0.subrange(3, p0.len() as int) =~= int_text(a) + seq![','] + int_text(b));
        }
        assert(strip_prefix_spec(p1, "l="@) == Some(int_text(c) + seq![','] + int_text(d))) by {
            assert(p1.subrange(0, 2) =~= "l="@);
            assert(p1.subrange(2, p1.len() as int) =~= int_text(c) + seq![','] + int_text(d));
        }
        lemma_split_concat(int_text(a), ',', int_text(b));
        lemma_split_no_sep(int_text(b), ',');
        lemma_split_concat(int_text(c), ',', int_text(d));
        lemma_split_no_sep(int_text(d), ',');
        assert(split_spec(int_text(a) + seq![','] + int_text(b), ',') =~= seq![int_text(a), int_text(b)]);
        assert(split_spec(int_text(c) + seq![','] + int_text(d), ',') =~= seq![int_text(c), int_text(d)]);
        assert(wall_position_spec(r) =~= r);
    }
}

// ---------------------------------------------------------------- purchases

/// A purchase as the client sends it: the page, the item, the extra value
/// (a decoration's pattern or a trophy's inscription), whether it is a
/// present, and the present's receiver and note.
#[derive(Debug, Clone)]
pub struct PurchaseRequest {
    pub page: String,
    pub item: String,
    pub extra: String,
    pub as_present: bool,
    pub receiver: String,
    pub note: String,
}

/// The fields of a purchase packet, split at `\r`, when there are at least
/// six of them.
pub open spec fn purchase_fields(packet: Seq<char>) -> Option<Seq<Seq<char>>> {
    let parts = split_spec(packet, '\r');
    if parts.len() < 6 {
        None
    } else {
        Some(parts)
    }
}

/// Reads a purchase packet (see `purchase_fields`): page in field 1, item
/// in field 3, the extra value in field 4, `1` in field 5 for a present,
/// then the receiver and the note.
pub fn parse_purchase(packet: &str) -> (r: Option<PurchaseRequest>)
    ensures
        r is None <==> purchase_fields(packet@) is None,
        r matches Some(q) ==> {
            let f = purchase_fields(packet@)->0;
            &&& q.page@ == f[1]
            &&& q.item@ == f[3]
            &&& q.extra@ == f[4]
            &&& q.as_present == (f[5] == "1"@)
            &&& q.receiver@ == part_or_empty(f, 6)
            &&& q.note@ == part_or_empty(f, 7)
        },
{
    let cs = to_chars(packet);
    let parts = split_chars(cs.as_slice(), '\r');
    if parts.len() < 6 {
        return None;
    }
    let one = to_chars("1");
    proof {
        reveal_strlit("1");
    }
    let receiver = if parts.len() > 6 { string_of(parts[6].as_slice()) } else { String::new() };
    let note = if parts.len() > 7 { string_of(parts[7].as_slice()) } else { String::new() };
    Some(PurchaseRequest {
        page: string_of(parts[1].as_slice()),
        item: string_of(parts[3].as_slice()),
        extra: string_of(parts[4].as_slice()),
        as_present: chars_eq(parts[5].as_slice(), one.as_slice()),
        receiver,
        note,
    })
}

/// Whether an item can be bought: it has a price and the buyer can pay it.
pub fn purchase_allowed(cost: i64, credits: i64) -> (r: bool)
    ensures
        r == (cost != 0 && cost <= credits),
{
    cost != 0 && cost <= credits
}

/// The sprite of the present box: one of `present_gen1` to `present_gen6`,
/// picked by the clock's nanoseconds.
pub fn present_box_sprite(nanos: u32) -> (r: String)
    ensures
        r@ == "present_gen"@ + int_text((nanos % 6) as int + 1),
{
    let mut s = crate::text::owned("present_gen");
    push_i64(&mut s, (nanos % 6) as i64 + 1);
    s
}

/// What kind of item is bought.
#[derive(Debug, Clone, Copy, PartialEq, Eq, Structural)]
pub enum PurchaseKind {
    /// A deal: several items at once, by the deal's id.
    Deal(i64),
    /// Wallpaper, floor or landscape: applied to a room, not placed.
    Decoration,
    /// A trophy, which carries an inscription.
    Trophy,
    /// Any other item.
    Plain,
}

/// Whether `pat` stands somewhere in `s`.
pub open spec fn contains_text(s: Seq<char>, pat: Seq<char>) -> bool {
    exists|i: int| 0 <= i && i + pat.len() <= s.len() && #[trigger] s.subrange(i, i + pat.len()) == pat
}

/// `s.contains(pat)`.
fn contains_chars(s: &[char], pat: &[char]) -> (r: bool)
    ensures
        r == contains_text(s@, pat@),
{
    let n = s.len();
    let m = pat.len();
    if m > n {
        return false;
    }
    let mut i: usize = 0;
    while i <= n - m
        invariant
            n == s@.len(),
            m == pat@.len(),
            m <= n,
            i <= n - m + 1,
            forall|k: int| 0 <= k < i ==> #[trigger] s@.subrange(k, k + m) != pat@,
        decreases n - i,
    {
        let mut j: usize = 0;
        while j < m && s[i + j] == pat[j]
            invariant
                i + m <= n,
                n == s@.len(),
                m == pat@.len(),
                j <= m,
                forall|q: int| 0 <= q < j ==> s@[i + q] == pat@[q],
            decreases m - j,
        {
            j += 1;
        }
        if j == m {
            assert(s@.subrange(i as int, i + m) =~= pat@);
            return true;
        }
        assert(s@.subrange(i as int, i + m)[j as int] != pat@[j as int]);
        i += 1;
    }
    assert forall|k: int| 0 <= k && k + m <= n implies #[trigger] s@.subrange(k, k + m) != pat@ by {
        assert(k < i);
    }
    false
}

/// The kind of a purchase: a deal when the item starts with `deal` (its id
/// after those four bytes, or 0), a decoration for wallpaper, floors and
/// landscapes, a trophy for prize and Greek trophies, else a plain item.
pub open spec fn purchase_kind_spec(item: Seq<char>, sprite: Seq<char>) -> PurchaseKind {
    if string_part_spec(item, 0, 4) == "deal"@ {
        PurchaseKind::Deal(match parse_int_spec(text_after_spec(item, 4), true, i64::MIN as int, i64::MAX as int) {
            Some(v) => v as i64,
            None => 0,
        })
    } else if sprite == "wallpaper"@ || sprite == "floor"@ || contains_text(sprite, "landscape"@) {
        PurchaseKind::Decoration
    } else if string_part_spec(item, 0, 11) == "prizetrophy"@ || string_part_spec(item, 0, 11) == "greektrophy"@ {
        PurchaseKind::Trophy
    } else {
        PurchaseKind::Plain
    }
}

/// The kind of a purchase (see `purchase_kind_spec`); `sprite` is the
/// bought item's sprite.
pub fn purchase_kind(item: &str, sprite: &str) -> (r: PurchaseKind)
    ensures
        r == purchase_kind_spec(item@, sprite@),
{
    let head4 = get_string_part(item, 0, 4);
    if str_eq(head4.as_str(), "deal") {
        let rest = text_after(item, 4);
        let id = match parse_i64(rest) {
            Some(v) => v,
            None => 0,
        };
        return PurchaseKind::Deal(id);
    }
    let sc = to_chars(sprite);
    let landscape = to_chars("landscape");
    if str_eq(sprite, "wallpaper") || str_eq(sprite, "floor") || contains_chars(sc.as_slice(), landscape.as_slice()) {
        return PurchaseKind::Decoration;
    }
    let head11 = get_string_part(item, 0, 11);
    if str_eq(head11.as_str(), "prizetrophy") || str_eq(head11.as_str(), "greektrophy") {
        PurchaseKind::Trophy
    } else {
        PurchaseKind::Plain
    }
}

/// The text a trophy carries: the buyer, the date and the inscription,
/// separated by tabs.
pub fn trophy_text(username: &str, date: &str, inscription: &str) -> (r: String)
    ensures
        r@ == username@ + seq!['\t'] + date@ + seq!['\t'] + inscription@,
{
    let mut s = crate::text::owned(username);
    push_char(&mut s, '\t');
    push_str(&mut s, date);
    push_char(&mut s, '\t');
    push_str(&mut s, inscription);
    s
}

// ---------------------------------------------------------------- catalogue pages

/// `tag:value\r` when the value is not empty.
pub open spec fn tagged_line(tag: char, value: Seq<char>) -> Seq<char> {
    if value.len() > 0 {
        seq![tag, ':'] + value + seq!['\r']
    } else {
        Seq::empty()
    }
}

/// Each piece followed by `\r`.
pub open spec fn lines_text(pieces: Seq<Seq<char>>) -> Seq<char>
    decreases pieces.len(),
{
    if pieces.len() == 0 {
        Seq::empty()
    } else {
        lines_text(pieces.drop_last()) + pieces.last() + seq!['\r']
    }
}

/// The head of a catalogue page from its row `indexname, minrank,
/// displayname, style_layout, img_header, img_side, label_description,
/// label_misc, label_moredetails`: index, name and layout, then the
/// header picture, side picture, description and more-details label where
/// they are set, then each line of the misc label.
pub open spec fn page_head_spec(row: Seq<Seq<char>>) -> Seq<char> {
    seq!['i', ':'] + row[0] + seq!['\r', 'n', ':'] + row[2] + seq!['\r', 'l', ':'] + row[3] + seq!['\r']
        + tagged_line('g', row[4]) + tagged_line('e', row[5]) + tagged_line('h', row[6]) + tagged_line('w', row[8])
        + (if row[7].len() > 0 { lines_text(split_spec(row[7], '\r')) } else { Seq::empty() })
}

fn push_tagged(s: &mut String, tag: char, value: &str)
    ensures
        final(s)@ == old(s)@ + tagged_line(tag, value@),
{
    if !value.is_empty() {
        push_char(s, tag);
        push_char(s, ':');
        push_str(s, value);
        push_char(s, '\r');
    }
}

/// A catalogue page and its index name, from its row (see
/// `page_head_spec`); a rank that is no `u8` counts as 1.
pub fn catalogue_page_head(row: &[String]) -> (r: (String, crate::state::CataloguePage))
    requires
        row@.len() >= 9,
    ensures
        r.0@ == row@[0]@,
        r.1.display_name@ == row@[2]@,
        r.1.min_rank == (match parse_int_spec(row@[1]@, false, 0, 255) {
            Some(v) => v as u8,
            None => 1u8,
        }),
        r.1.page_data@ == page_head_spec(crate::strings::strings_view(row@)),
{
    let ghost rv = crate::strings::strings_view(row@);
    let min_rank = match crate::text::parse_u8(row[1].as_str()) {
        Some(v) => v,
        None => 1,
    };
    let mut data = String::new();
    push_char(&mut data, 'i');
    push_char(&mut data, ':');
    push_str(&mut data, row[0].as_str());
    push_char(&mut data, '\r');
    push_char(&mut data, 'n');
    push_char(&mut data, ':');
    push_str(&mut data, row[2].as_str());
    push_char(&mut data, '\r');
    push_char(&mut data, 'l');
    push_char(&mut data, ':');
    push_str(&mut data, row[3].as_str());
    push_char(&mut data, '\r');
    push_tagged(&mut data, 'g', row[4].as_str());
    push_tagged(&mut data, 'e', row[5].as_str());
    push_tagged(&mut data, 'h', row[6].as_str());
    push_tagged(&mut data, 'w', row[8].as_str());
    let ghost before = data@;
    if !row[7].as_str().is_empty() {
        let cs = to_chars(row[7].as_str());
        let pieces = split_chars(cs.as_slice(), '\r');
        let ghost pv = split_spec(rv[7], '\r');
        let mut i: usize = 0;
        assert(pv.take(0) =~= Seq::<Seq<char>>::empty());
        while i < pieces.len()
            invariant
                pv == split_spec(rv[7], '\r'),
                pieces@.len() == pv.len(),
                forall|j: int| 0 <= j < pieces@.len() ==> #[trigger] pieces@[j]@ == pv[j],
                i <= pieces@.len(),
                data@ == before + lines_text(pv.take(i as int)),
            decreases pieces@.len() - i,
        {
            assert(pv.take(i + 1).drop_last() =~= pv.take(i as int));
            push_chars(&mut data, pieces[i].as_slice());
            push_char(&mut data, '\r');
            i += 1;
        }
        assert(pv.take(pieces@.len() as int) =~= pv);
    }
    assert(data@ =~= page_head_spec(rv));
    (row[0].clone(), crate::state::CataloguePage { display_name: row[2].clone(), page_data: data, min_rank })
}

/// An item's line on a catalogue page: `p:`, name, description and price,
/// `i` for wall items or `s` for floor items, the item's code, the size of
/// a floor item, the code again and a floor item's colour.
pub open spec fn item_line_spec(name: Seq<char>, desc: Seq<char>, cost: i64, type_id: u8, cct: Seq<char>, length: i64, width: i64, colour: Seq<char>) -> Seq<char> {
    seq!['p', ':'] + name + seq!['\t'] + desc + seq!['\t'] + int_text(cost as int) + seq!['\t', '\t']
        + (if type_id == 0 { seq!['i'] } else { seq!['s'] }) + seq!['\t'] + cct + seq!['\t']
        + (if type_id == 0 { seq!['\t'] } else { seq!['0', '\t'] })
        + (if type_id == 0 { seq!['\t'] } else { int_text(length as int) + seq![','] + int_text(width as int) + seq!['\t'] })
        + cct + seq!['\t'] + (if type_id > 0 { colour } else { Seq::empty() }) + seq!['\r']
}

/// An item's line on a catalogue page (see `item_line_spec`).
pub fn catalogue_item_line(name: &str, desc: &str, cost: i64, type_id: u8, cct: &str, length: i64, width: i64, colour: &str) -> (r: String)
    ensures
        r@ == item_line_spec(name@, desc@, cost, type_id, cct@, length, width, colour@),
{
    let mut s = String::new();
    push_char(&mut s, 'p');
    push_char(&mut s, ':');
    push_str(&mut s, name);
    push_char(&mut s, '\t');
    push_str(&mut s, desc);
    push_char(&mut s, '\t');
    push_i64(&mut s, cost);
    push_char(&mut s, '\t');
    push_char(&mut s, '\t');
    push_char(&mut s, if type_id == 0 { 'i' } else { 's' });
    push_char(&mut s, '\t');
    push_str(&mut s, cct);
    push_char(&mut s, '\t');
    if type_id == 0 {
        push_char(&mut s, '\t');
        push_char(&mut s, '\t');
    } else {
        push_char(&mut s, '0');
        push_char(&mut s, '\t');
        push_i64(&mut s, length);
        push_char(&mut s, ',');
        push_i64(&mut s, width);
        push_char(&mut s, '\t');
    }
    push_str(&mut s, cct);
    push_char(&mut s, '\t');
    if type_id > 0 {
        push_str(&mut s, colour);
    }
    push_char(&mut s, '\r');
    assert(s@ =~= item_line_spec(name@, desc@, cost, type_id, cct@, length, width, colour@));
    s
}

/// What opening a present shows of the item inside: `BA`, the sprite, then
/// for a floor item the sprite, size and colour separated by `\u{1e}`, and
/// for a wall item the sprite and colour separated by a space and a closing
/// `\r`.
pub open spec fn present_reveal_spec(sprite: Seq<char>, type_id: u8, length: i64, width: i64, colour: Seq<char>) -> Seq<char> {
    if type_id > 0 {
        seq!['B', 'A'] + sprite + seq!['\r'] + sprite + seq!['\r'] + int_text(length as int) + seq!['\u{1e}']
            + int_text(width as int) + seq!['\u{1e}'] + colour
    } else {
        seq!['B', 'A'] + sprite + seq!['\r'] + sprite + seq![' '] + colour + seq!['\r']
    }
}

/// What opening a present shows of the item inside (see
/// `present_reveal_spec`).
pub fn present_reveal_packet(sprite: &str, type_id: u8, length: i64, width: i64, colour: &str) -> (r: String)
    ensures
        r@ == present_reveal_spec(sprite@, type_id, length, width, colour@),
{
    let mut s = String::new();
    push_char(&mut s, 'B');
    push_char(&mut s, 'A');
    push_str(&mut s, sprite);
    push_char(&mut s, '\r');
    push_str(&mut s, sprite);
    if type_id > 0 {
        push_char(&mut s, '\r');
        push_i64(&mut s, length);
        push_char(&mut s, '\u{1e}');
        push_i64(&mut s, width);
        push_char(&mut s, '\u{1e}');
        push_str(&mut s, colour);
    } else {
        push_char(&mut s, ' ');
        push_str(&mut s, colour);
        push_char(&mut s, '\r');
    }
    s
}

} // verus!
