//! Building a catalogue page: the rows of its items read, deals told from
//! plain items, each item's line, and the page put together.
use vstd::prelude::*;

use crate::catalogue::{catalogue_item_line, catalogue_page_head, item_line_spec, page_head_spec};
use crate::session::{text_after, text_after_spec};
use crate::state::CataloguePage;
use crate::strings::{get_string_part, string_part_spec, strings_view};
use crate::text::{int_text, parse_i64, parse_int_spec, parse_u8, push_char, push_i64, push_str, str_eq};

verus! {

/// `s.parse::<i64>()`, or `d` when it is not a number.
pub open spec fn i64_or(s: Seq<char>, d: int) -> int {
    match parse_int_spec(s, true, i64::MIN as int, i64::MAX as int) {
        Some(v) => v,
        None => d,
    }
}

/// `s.parse::<u8>()`, or `d` when it is not one.
pub open spec fn u8_or(s: Seq<char>, d: int) -> int {
    match parse_int_spec(s, false, 0, 255) {
        Some(v) => v,
        None => d,
    }
}

/// A catalogue item row `tid, typeid, length, width, catalogue_cost, door,
/// tradeable, recycleable, catalogue_name, catalogue_description,
/// name_cct, colour, top`, read (the height is left to the caller).
#[derive(Debug, Clone)]
pub struct CatalogueRow {
    pub template_id: i64,
    pub type_id: u8,
    pub length: i64,
    pub width: i64,
    pub cost: i64,
    pub is_door: bool,
    pub is_tradeable: bool,
    pub is_recycleable: bool,
    pub name: String,
    pub description: String,
    pub cct: String,
    pub colour: String,
}

/// Reads a catalogue item row: `None` when it has fewer than 13 fields;
/// the template id and cost count 0 when they are no numbers, the type 1,
/// the size 1 by 1; the flags are set by `1`.
pub open spec fn catalogue_row_ok(row: Seq<Seq<char>>, r: CatalogueRow) -> bool {
    &&& r.template_id == i64_or(row[0], 0)
    &&& r.type_id == u8_or(row[1], 1)
    &&& r.length == i64_or(row[2], 1)
    &&& r.width == i64_or(row[3], 1)
    &&& r.cost == i64_or(row[4], 0)
    &&& r.is_door == (row[5] == "1"@)
    &&& r.is_tradeable == (row[6] == "1"@)
    &&& r.is_recycleable == (row[7] == "1"@)
    &&& r.name@ == row[8]
    &&& r.description@ == row[9]
    &&& r.cct@ == row[10]
    &&& r.colour@ == row[11]
}

fn i64_field(s: &str, d: i64) -> (r: i64)
    ensures
        r == i64_or(s@, d as int),
{
    match parse_i64(s) {
        Some(v) => v,
        None => d,
    }
}

/// Reads a catalogue item row (see `catalogue_row_ok`).
pub fn parse_catalogue_row(row: &[String]) -> (r: Option<CatalogueRow>)
    ensures
        match r {
            Some(c) => row@.len() >= 13 && catalogue_row_ok(strings_view(row@), c),
            None => row@.len() < 13,
        },
{
    if row.len() < 13 {
        return None;
    }
    let ghost rv = strings_view(row@);
    assert(forall|i: int| 0 <= i < 13 ==> rv[i] == row@[i]@);
    let type_id: u8 = match parse_u8(row[1].as_str()) {
        Some(v) => v,
        None => 1,
    };
    let one = "1";
    proof {
        reveal_strlit("1");
    }
    Some(
        CatalogueRow {
            template_id: i64_field(row[0].as_str(), 0),
            type_id,
            length: i64_field(row[2].as_str(), 1),
            width: i64_field(row[3].as_str(), 1),
            cost: i64_field(row[4].as_str(), 0),
            is_door: str_eq(row[5].as_str(), one),
            is_tradeable: str_eq(row[6].as_str(), one),
            is_recycleable: str_eq(row[7].as_str(), one),
            name: row[8].clone(),
            description: row[9].clone(),
            cct: row[10].clone(),
            colour: row[11].clone(),
        },
    )
}

/// The deal an item code names: a code whose first four characters are
/// `deal` is a deal, numbered by the rest of the code (0 when that is no
/// number); any other code is a plain item.
pub open spec fn deal_id_spec(cct: Seq<char>) -> Option<int> {
    if string_part_spec(cct, 0, 4) == "deal"@ {
        Some(i64_or(text_after_spec(cct, 4), 0))
    } else {
        None
    }
}

/// The deal an item code names (see `deal_id_spec`).
pub fn deal_id(cct: &str) -> (r: Option<i64>)
    ensures
        match deal_id_spec(cct@) {
            Some(d) => r == Some(d as i64),
            None => r is None,
        },
{
    let head = get_string_part(cct, 0, 4);
    let is_deal = str_eq(head.as_str(), "deal");
    proof {
        reveal_strlit("deal");
    }
    if is_deal {
        Some(i64_field(text_after(cct, 4), 0))
    } else {
        None
    }
}

/// An item of a deal: its code, how many, and its colour.
#[derive(Debug, Clone)]
pub struct DealItem {
    pub cct: String,
    pub amount: i64,
    pub colour: String,
}

/// The first `n` items of a deal, each as code, amount and colour, every
/// field followed by a tab.
pub open spec fn deal_items_spec(items: Seq<DealItem>, n: int) -> Seq<char>
    decreases n,
{
    if n <= 0 {
        Seq::empty()
    } else {
        deal_items_spec(items, n - 1) + items[n - 1].cct@ + seq!['\t'] + int_text(items[n - 1].amount as int)
            + seq!['\t'] + items[n - 1].colour@ + seq!['\t']
    }
}

/// A deal's line on a catalogue page: `p:`, name, description and price,
/// `d`, the deal's code, the number of items, then each item.
pub open spec fn deal_line_spec(name: Seq<char>, desc: Seq<char>, cost: i64, deal: i64, items: Seq<DealItem>) -> Seq<char> {
    seq!['p', ':'] + name + seq!['\t'] + desc + seq!['\t'] + int_text(cost as int) + seq!['\t', '\t', 'd', '\t', '\t', '\t', '\t', 'd', 'e', 'a', 'l']
        + int_text(deal as int) + seq!['\t', '\t'] + int_text(items.len() as int) + seq!['\t'] + deal_items_spec(items, items.len() as int)
}

/// A deal's line on a catalogue page (see `deal_line_spec`).
pub fn deal_line(name: &str, desc: &str, cost: i64, deal: i64, items: &[DealItem]) -> (r: String)
    requires
        items@.len() <= i64::MAX,
    ensures
        r@ == deal_line_spec(name@, desc@, cost, deal, items@),
{
    let mut s = String::new();
    push_str(&mut s, "p:");
    push_str(&mut s, name);
    push_char(&mut s, '\t');
    push_str(&mut s, desc);
    push_char(&mut s, '\t');
    push_i64(&mut s, cost);
    push_str(&mut s, "\t\td\t\t\t\tdeal");
    push_i64(&mut s, deal);
    push_char(&mut s, '\t');
    push_char(&mut s, '\t');
    push_i64(&mut s, items.len() as i64);
    push_char(&mut s, '\t');
    proof {
        reveal_strlit("p:");
        reveal_strlit("\t\td\t\t\t\tdeal");
    }
    let ghost head = s@;
    let mut i: usize = 0;
    while i < items.len()
        invariant
            0 <= i <= items@.len(),
            s@ == head + deal_items_spec(items@, i as int),
        decreases items.len() - i,
    {
        let ghost before = s@;
        push_str(&mut s, items[i].cct.as_str());
        push_char(&mut s, '\t');
        push_i64(&mut s, items[i].amount);
        push_char(&mut s, '\t');
        push_str(&mut s, items[i].colour.as_str());
        push_char(&mut s, '\t');
        i += 1;
        assert(s@ =~= head + deal_items_spec(items@, i as int));
    }
    assert(s@ =~= deal_line_spec(name@, desc@, cost, deal, items@));
    s
}

/// A line of a catalogue page: a plain item, or a deal with its items.
#[derive(Debug, Clone)]
pub enum PageLine {
    Item(CatalogueRow),
    Deal(CatalogueRow, i64, Vec<DealItem>),
}

/// The text of a line of a catalogue page.
pub open spec fn page_line_spec(l: PageLine) -> Seq<char> {
    match l {
        PageLine::Item(c) => item_line_spec(c.name@, c.description@, c.cost, c.type_id, c.cct@, c.length, c.width, c.colour@),
        PageLine::Deal(c, d, items) => deal_line_spec(c.name@, c.description@, c.cost, d, items@),
    }
}

/// The texts of the first `n` lines of a catalogue page.
pub open spec fn page_lines_spec(lines: Seq<PageLine>, n: int) -> Seq<char>
    decreases n,
{
    if n <= 0 {
        Seq::empty()
    } else {
        page_lines_spec(lines, n - 1) + page_line_spec(lines[n - 1])
    }
}

/// A catalogue page and its index name: with a page row of nine fields and
/// a positive page id, the page's head (see `catalogue_page_head`),
/// otherwise no name and an empty page; then the lines of its items in
/// order.
pub fn catalogue_page(page_id: i64, head_row: &[String], lines: &[PageLine]) -> (r: (String, CataloguePage))
    requires
        forall|i: int| 0 <= i < lines@.len() ==> (#[trigger] lines@[i] matches PageLine::Deal(_, _, items) ==> items@.len() <= i64::MAX),
    ensures
        page_id > 0 && head_row@.len() >= 9 ==> {
            &&& r.0@ == head_row@[0]@
            &&& r.1.display_name@ == head_row@[2]@
            &&& r.1.min_rank == u8_or(head_row@[1]@, 1)
            &&& r.1.page_data@ == page_head_spec(strings_view(head_row@)) + page_lines_spec(lines@, lines@.len() as int)
        },
        !(page_id > 0 && head_row@.len() >= 9) ==> {
            &&& r.0@.len() == 0
            &&& r.1.display_name@.len() == 0
            &&& r.1.min_rank == 0
            &&& r.1.page_data@ == page_lines_spec(lines@, lines@.len() as int)
        },
{
    let (name, mut page) = if page_id > 0 && head_row.len() >= 9 {
        catalogue_page_head(head_row)
    } else {
        (String::new(), CataloguePage::default())
    };
    let ghost head = page.page_data@;
    let ghost display = page.display_name@;
    let ghost rank = page.min_rank;
    let mut i: usize = 0;
    while i < lines.len()
        invariant
            0 <= i <= lines@.len(),
            forall|i: int| 0 <= i < lines@.len() ==> (#[trigger] lines@[i] matches PageLine::Deal(_, _, items) ==> items@.len() <= i64::MAX),
            page.page_data@ == head + page_lines_spec(lines@, i as int),
            page.display_name@ == display,
            page.min_rank == rank,
        decreases lines.len() - i,
    {
        let line = match &lines[i] {
            PageLine::Item(c) => catalogue_item_line(
                c.name.as_str(),
                c.description.as_str(),
                c.cost,
                c.type_id,
                c.cct.as_str(),
                c.length,
                c.width,
                c.colour.as_str(),
            ),
            PageLine::Deal(c, d, items) => {
                assert(lines@[i as int] matches PageLine::Deal(_, _, items) ==> items@.len() <= i64::MAX);
                deal_line(c.name.as_str(), c.description.as_str(), c.cost, *d, items.as_slice())
            },
        };
        push_str(&mut page.page_data, line.as_str());
        i += 1;
        assert(page.page_data@ =~= head + page_lines_spec(lines@, i as int));
    }
    (name, page)
}

/// What a user of rank `user_rank` gets for a catalogue page: the page's
/// data when the rank reaches the page's, a refusal when it does not, and
/// another refusal when there is no such page.
pub open spec fn page_for_rank_spec(page: Option<CataloguePage>, user_rank: u8) -> Seq<char> {
    match page {
        Some(p) => if user_rank >= p.min_rank {
            p.page_data@
        } else {
            "holo.cast.catalogue.access_denied"@
        },
        None => "cast_catalogue.access_denied"@,
    }
}

/// What a user of rank `user_rank` gets for a catalogue page (see
/// `page_for_rank_spec`).
pub fn get_page(page: Option<&CataloguePage>, user_rank: u8) -> (r: String)
    ensures
        r@ == page_for_rank_spec(
            match page {
                Some(p) => Some(*p),
                None => None,
            },
            user_rank,
        ),
{
    match page {
        Some(p) => {
            if user_rank >= p.min_rank {
                p.page_data.clone()
            } else {
                crate::text::owned("holo.cast.catalogue.access_denied")
            }
        },
        None => crate::text::owned("cast_catalogue.access_denied"),
    }
}

/// The first `n` entries of the catalogue index: each page that is cached
/// (its display name given) as index name, a tab, display name and `\r`;
/// the others are left out.
pub open spec fn page_index_spec(entries: Seq<(String, Option<String>)>, n: int) -> Seq<char>
    decreases n,
{
    if n <= 0 {
        Seq::empty()
    } else {
        page_index_spec(entries, n - 1) + match entries[n - 1].1 {
            Some(d) => entries[n - 1].0@ + seq!['\t'] + d@ + seq!['\r'],
            None => Seq::empty(),
        }
    }
}

/// The catalogue index for the pages a user's rank may see, in order (see
/// `page_index_spec`).
pub fn get_page_index(entries: &[(String, Option<String>)]) -> (r: String)
    ensures
        r@ == page_index_spec(entries@, entries@.len() as int),
{
    let mut s = String::new();
    let mut i: usize = 0;
    while i < entries.len()
        invariant
            0 <= i <= entries@.len(),
            s@ == page_index_spec(entries@, i as int),
        decreases entries.len() - i,
    {
        let ghost before = s@;
        match &entries[i].1 {
            Some(d) => {
                push_str(&mut s, entries[i].0.as_str());
                push_char(&mut s, '\t');
                push_str(&mut s, d.as_str());
                push_char(&mut s, '\r');
            },
            None => {},
        }
        i += 1;
        assert(s@ =~= page_index_spec(entries@, i as int));
    }
    s
}

} // verus!
