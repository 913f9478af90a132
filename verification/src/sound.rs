//! Sound machine songs: the length of a song from its track data, the
//! title-and-body format a saved song (or a new event) is sent in, and what
//! a song burnt to disk says, and the lists of a machine's songs and
//! playlist.
use vstd::prelude::*;

use crate::codec::push_vl64;
use crate::polls::{choices_spec, chosen_answer_ids, take_vl64, vl64_take_spec};
use vstd::string::StringSliceAdditionalSpecFns;
use crate::navigator::{push_vl, vl, vl_ok};
use crate::text::{parse_i32_chars, parse_int_spec, push_char, push_str, split_chars, split_spec, str_eq, sub_chars, to_chars, trunc_usize};

verus! {

/// The index of the last `c` in `s`, if any.
pub open spec fn last_index_of(s: Seq<char>, c: char) -> Option<int>
    decreases s.len(),
{
    if s.len() == 0 {
        None
    } else if s.last() == c {
        Some(s.len() - 1)
    } else {
        last_index_of(s.drop_last(), c)
    }
}

/// The index of the last `c` in `s`, if any.
pub fn rfind_char(s: &[char], c: char) -> (r: Option<usize>)
    ensures
        r is None <==> last_index_of(s@, c) is None,
        r matches Some(i) ==> i < s@.len() && last_index_of(s@, c) == Some(i as int),
{
    let mut i: usize = s.len();
    assert(s@.take(i as int) =~= s@);
    while i > 0
        invariant
            i <= s@.len(),
            last_index_of(s@, c) == last_index_of(s@.take(i as int), c),
        decreases i,
    {
        let ghost t = s@.take(i as int);
        assert(t.last() == s@[i - 1]);
        if s[i - 1] == c {
            return Some(i - 1);
        }
        assert(t.drop_last() =~= s@.take(i - 1));
        i -= 1;
    }
    None
}

/// The length of one sample `id,length`: the text after its last comma,
/// read as an `i32`.
pub open spec fn sample_length(sample: Seq<char>) -> Option<int> {
    match last_index_of(sample, ',') {
        Some(k) => parse_int_spec(sample.subrange(k + 1, sample.len() as int), true, i32::MIN as int, i32::MAX as int),
        None => None,
    }
}

/// The sum of the sample lengths of a track, or `None` when one sample is
/// malformed.
pub open spec fn track_sum(samples: Seq<Seq<char>>) -> Option<int>
    decreases samples.len(),
{
    if samples.len() == 0 {
        Some(0)
    } else {
        match (track_sum(samples.drop_last()), sample_length(samples.last())) {
            (Some(a), Some(b)) => Some(a + b),
            _ => None,
        }
    }
}

/// Every running total of a track's samples, as far as they are read,
/// fits in an `i32`.
pub open spec fn track_fits(samples: Seq<Seq<char>>) -> bool {
    forall|k: int|
        0 <= k <= samples.len() ==> (#[trigger] track_sum(samples.take(k)) matches Some(v) ==> i32::MIN <= v
            <= i32::MAX)
}

/// The samples of track `i` of the song data (its fields are separated by
/// `:`, and tracks stand at fields 1, 4 and 7).
pub open spec fn track_samples(data: Seq<char>, i: int) -> Seq<Seq<char>> {
    split_spec(split_spec(data, ':')[i], ';')
}

/// The total length of track field `i`, or `None` when it is missing or
/// malformed.
pub open spec fn track_total(data: Seq<char>, i: int) -> Option<int> {
    if i < split_spec(data, ':').len() {
        track_sum(track_samples(data, i))
    } else {
        None
    }
}

/// The tracks that are read before the first failure have running totals
/// that fit in an `i32`.
pub open spec fn song_fits(data: Seq<char>) -> bool {
    let n = split_spec(data, ':').len();
    &&& (1 < n ==> track_fits(track_samples(data, 1)))
    &&& (track_total(data, 1) is Some && 4 < n ==> track_fits(track_samples(data, 4)))
    &&& (track_total(data, 1) is Some && track_total(data, 4) is Some && 7 < n ==> track_fits(
        track_samples(data, 7),
    ))
}

/// The length of a song: the longest of its three tracks (at least 0), or
/// -1 when a track is missing or malformed.
pub open spec fn song_length_spec(data: Seq<char>) -> int {
    match (track_total(data, 1), track_total(data, 4), track_total(data, 7)) {
        (Some(a), Some(b), Some(c)) => {
            let m1 = if a > 0 { a } else { 0 };
            let m2 = if b > m1 { b } else { m1 };
            if c > m2 { c } else { m2 }
        },
        _ => -1,
    }
}

/// The length of one sample, as `rsplit_once(',')` and `parse::<i32>` read it.
fn sample_length_exec(sample: &[char]) -> (r: Option<i32>)
    ensures
        r matches Some(v) ==> sample_length(sample@) == Some(v as int),
        r is None ==> sample_length(sample@) is None,
{
    match rfind_char(sample, ',') {
        Some(k) => {
            let n = sample.len();
            assert(k < n);
            let tail = sub_chars(sample, k + 1, n);
            parse_i32_chars(tail.as_slice())
        },
        None => None,
    }
}

/// The total of one track, or `None` when a sample is malformed.
fn track_total_exec(samples: &Vec<Vec<char>>) -> (r: Option<i32>)
    requires
        track_fits(samples@.map_values(|v: Vec<char>| v@)),
    ensures
        r matches Some(v) ==> track_sum(samples@.map_values(|v: Vec<char>| v@)) == Some(v as int),
        r is None ==> track_sum(samples@.map_values(|v: Vec<char>| v@)) is None,
{
    let ghost all = samples@.map_values(|v: Vec<char>| v@);
    let mut total: i32 = 0;
    let mut j: usize = 0;
    assert(all.take(0) =~= Seq::<Seq<char>>::empty());
    while j < samples.len()
        invariant
            all == samples@.map_values(|v: Vec<char>| v@),
            track_fits(all),
            j <= samples@.len(),
            track_sum(all.take(j as int)) == Some(total as int),
        decreases samples@.len() - j,
    {
        let ghost next = all.take(j + 1);
        assert(next.drop_last() =~= all.take(j as int));
        assert(next.last() == samples@[j as int]@);
        match sample_length_exec(samples[j].as_slice()) {
            Some(len) => {
                assert(track_sum(next) == Some(total + len));
                assert(track_sum(all.take(j + 1)) matches Some(v) ==> i32::MIN <= v <= i32::MAX);
                total = total + len;
            },
            None => {
                assert(track_sum(next) is None);
                proof {
                    lemma_track_sum_prefix_none(all, j + 1);
                }
                return None;
            },
        }
        j += 1;
    }
    assert(all.take(samples@.len() as int) =~= all);
    Some(total)
}

/// Once a prefix of the samples fails, the whole track fails.
proof fn lemma_track_sum_prefix_none(s: Seq<Seq<char>>, k: int)
    requires
        0 <= k <= s.len(),
        track_sum(s.take(k)) is None,
    ensures
        track_sum(s) is None,
    decreases s.len() - k,
{
    if k < s.len() {
        assert(s.take(k + 1).drop_last() =~= s.take(k));
        lemma_track_sum_prefix_none(s, k + 1);
    } else {
        assert(s.take(k) =~= s);
    }
}

/// The length of a song in the sound machine's track format
/// (`id:samples:...`, with `;`-separated `sample,length` pairs in fields
/// 1, 4 and 7): the longest track, and -1 when the data is malformed.
pub fn calculate_song_length(data: &str) -> (r: i32)
    requires
        song_fits(data@),
    ensures
        r as int == song_length_spec(data@),
{
    let chars = to_chars(data);
    let tracks = split_chars(chars.as_slice(), ':');
    let mut song_length: i32 = 0;
    let mut i: usize = 1;
    let ghost d = data@;
    while i < 8
        invariant
            chars@ == d,
            d == data@,
            song_fits(d),
            tracks@.len() == split_spec(d, ':').len(),
            forall|t: int| 0 <= t < tracks@.len() ==> #[trigger] tracks@[t]@ == split_spec(d, ':')[t],
            i == 1 || i == 4 || i == 7 || i == 10,
            i >= 4 ==> track_total(d, 1) is Some,
            i >= 7 ==> track_total(d, 4) is Some,
            i >= 10 ==> track_total(d, 7) is Some,
            song_length as int == {
                let a = if i >= 4 { track_total(d, 1)->0 } else { 0 };
                let b = if i >= 7 { track_total(d, 4)->0 } else { 0 };
                let c = if i >= 10 { track_total(d, 7)->0 } else { 0 };
                let m1 = if a > 0 { a } else { 0 };
                let m2 = if b > m1 { b } else { m1 };
                if c > m2 { c } else { m2 }
            },
        decreases 10 - i,
    {
        if i >= tracks.len() {
            return -1;
        }
        let samples = split_chars(tracks[i].as_slice(), ';');
        let ghost sv = samples@.map_values(|v: Vec<char>| v@);
        assert(sv =~= track_samples(d, i as int));
        let total = match track_total_exec(&samples) {
            Some(t) => t,
            None => {
                return -1;
            },
        };
        if total > song_length {
            song_length = total;
        }
        i += 3;
    }
    song_length
}

/// A title and a body as saving a song (after the song number) or creating
/// an event (after the category) sends them: a B64 title length, the title,
/// two more bytes and the body. `None` inside when the bytes run out;
/// `None` outside when a slice would cut a character.
pub open spec fn titled_body_spec(s: Seq<char>) -> Option<Option<(Seq<char>, Seq<char>)>> {
    let b = vstd::utf8::encode_utf8(s);
    if b.len() < 4 {
        Some(None)
    } else if !vstd::utf8::is_char_boundary(b, 2) {
        None
    } else {
        let n = crate::game_settings::short_length(b.subrange(0, 2));
        if b.len() < n + 4 {
            Some(None)
        } else if !vstd::utf8::is_char_boundary(b, 2 + n) || !vstd::utf8::is_char_boundary(b, n + 4) {
            None
        } else {
            Some(Some((crate::stickies::text_range_spec(s, 2, 2 + n), crate::session::text_after_spec(s, n + 4))))
        }
    }
}

/// A title and a body (see `titled_body_spec`).
pub fn titled_body(s: &str) -> (r: Option<(String, String)>)
    requires
        titled_body_spec(s@) is Some,
    ensures
        match titled_body_spec(s@)->0 {
            Some((t, d)) => r matches Some(x) && x.0@ == t && x.1@ == d,
            None => r is None,
        },
{
    if s.as_bytes().len() < 4 {
        return None;
    }
    if !s.is_char_boundary(2) {
        return None;
    }
    let n = crate::game_settings::short_length_exec(s);
    if s.as_bytes().len() < n + 4 {
        return None;
    }
    let title = crate::stickies::text_range(s, 2, 2 + n);
    let data = crate::session::text_after(s, n + 4);
    Some((crate::text::owned(title), crate::text::owned(data)))
}

/// What a song burnt to disk says on the disk: the song, the burner, the
/// day, month and year, the length and the title, the names escaped.
pub open spec fn disk_status_spec(song_id: i64, username: Seq<char>, day: u32, month: u32, year: i32, length: i64, title: Seq<char>) -> Seq<char> {
    crate::navigator::vl(song_id as int) + crate::strings::escape_spec(username) + seq!['\n'] + crate::text::nat_text(
        day as nat,
    ) + seq!['\n'] + crate::text::nat_text(month as nat) + seq!['\n'] + crate::text::int_text(year as int) + seq!['\n']
        + crate::text::int_text(length as int) + seq!['\n'] + crate::strings::escape_spec(title)
}

/// What a song burnt to disk says on the disk (see `disk_status_spec`);
/// the date is the day it was burnt.
pub fn build_burned_disk_status(song_id: i64, username: &str, day: u32, month: u32, year: i32, length: i64, title: &str) -> (r: String)
    requires
        crate::navigator::vl_ok(song_id as int),
    ensures
        r@ == disk_status_spec(song_id, username@, day, month, year, length, title@),
{
    let mut s = String::new();
    crate::navigator::push_vl(&mut s, song_id);
    crate::text::push_str(&mut s, crate::strings::stripslash(username).as_str());
    crate::text::push_char(&mut s, '\n');
    crate::text::push_u64(&mut s, day as u64);
    crate::text::push_char(&mut s, '\n');
    crate::text::push_u64(&mut s, month as u64);
    crate::text::push_char(&mut s, '\n');
    crate::text::push_i64(&mut s, year as i64);
    crate::text::push_char(&mut s, '\n');
    crate::text::push_i64(&mut s, length);
    crate::text::push_char(&mut s, '\n');
    crate::text::push_str(&mut s, crate::strings::stripslash(title).as_str());
    s
}

// ---------------------------------------------------------------- machine lists

/// A song stored in a sound machine: id, length, title and whether it was
/// burnt to disk (`1`).
#[derive(Debug, Clone)]
pub struct SongRow {
    pub id: i64,
    pub length: i64,
    pub title: String,
    pub burnt: String,
}

/// A song in a machine's song list: id and length, the title, and `I` for a
/// burnt song or `H` for another.
pub open spec fn song_entry(r: SongRow) -> Seq<char> {
    vl(r.id as int) + vl(r.length as int) + r.title@ + seq!['\u{2}'] + seq![
        if r.burnt@ == seq!['1'] {
            'I'
        } else {
            'H'
        },
    ]
}

/// The first `n` songs of a song list.
pub open spec fn songs_spec(rows: Seq<SongRow>, n: int) -> Seq<char>
    decreases n,
{
    if n <= 0 {
        Seq::empty()
    } else {
        songs_spec(rows, n - 1) + song_entry(rows[n - 1])
    }
}

/// Whether every song's numbers can be written.
pub open spec fn songs_fit(rows: Seq<SongRow>) -> bool {
    &&& vl_ok(rows.len() as int)
    &&& forall|i: int| 0 <= i < rows.len() ==> vl_ok(#[trigger] rows[i].id as int) && vl_ok(rows[i].length as int)
}

/// The songs of a machine: their number, then each song (see `song_entry`).
pub fn get_machine_song_list(rows: &[SongRow]) -> (r: String)
    requires
        songs_fit(rows@),
    ensures
        r@ == vl(rows@.len() as int) + songs_spec(rows@, rows@.len() as int),
{
    let mut s = String::new();
    push_vl64(&mut s, trunc_usize(rows.len()));
    let ghost head = s@;
    let mut i: usize = 0;
    while i < rows.len()
        invariant
            0 <= i <= rows@.len(),
            songs_fit(rows@),
            s@ == head + songs_spec(rows@, i as int),
        decreases rows.len() - i,
    {
        let r = &rows[i];
        assert(vl_ok(rows@[i as int].id as int));
        let ghost before = s@;
        push_vl(&mut s, r.id);
        push_vl(&mut s, r.length);
        push_str(&mut s, r.title.as_str());
        push_char(&mut s, '\u{2}');
        let burnt = str_eq(r.burnt.as_str(), "1");
        proof {
            reveal_strlit("1");
            assert("1"@ =~= seq!['1']);
        }
        assert(burnt == (rows@[i as int].burnt@ == seq!['1']));
        push_char(&mut s, if burnt { 'I' } else { 'H' });
        assert(s@ =~= before + song_entry(rows@[i as int]));
        i += 1;
        assert(s@ =~= head + songs_spec(rows@, i as int));
    }
    s
}

/// A song in a machine's playlist: its song id, title and creator's name.
#[derive(Debug, Clone)]
pub struct PlaylistEntry {
    pub song_id: i64,
    pub title: String,
    pub creator: String,
}

/// The entry at `index` of a playlist: the song, its place counted from 1,
/// the title and the creator.
pub open spec fn playlist_entry(e: PlaylistEntry, index: int) -> Seq<char> {
    vl(e.song_id as int) + vl(index + 1) + e.title@ + seq!['\u{2}'] + e.creator@ + seq!['\u{2}']
}

/// The first `n` entries of a playlist.
pub open spec fn playlist_spec(entries: Seq<PlaylistEntry>, n: int) -> Seq<char>
    decreases n,
{
    if n <= 0 {
        Seq::empty()
    } else {
        playlist_spec(entries, n - 1) + playlist_entry(entries[n - 1], n - 1)
    }
}

/// The playlist of a machine: `H`, the number of entries, then each entry
/// (see `playlist_entry`).
pub fn get_machine_playlist(entries: &[PlaylistEntry]) -> (r: String)
    requires
        entries@.len() <= i32::MAX,
        forall|i: int| 0 <= i < entries@.len() ==> vl_ok(#[trigger] entries@[i].song_id as int),
    ensures
        r@ == seq!['H'] + vl(entries@.len() as int) + playlist_spec(entries@, entries@.len() as int),
{
    let mut s = String::new();
    push_char(&mut s, 'H');
    push_vl(&mut s, entries.len() as i64);
    let ghost head = s@;
    let mut i: usize = 0;
    while i < entries.len()
        invariant
            0 <= i <= entries@.len(),
            entries@.len() <= i32::MAX,
            forall|i: int| 0 <= i < entries@.len() ==> vl_ok(#[trigger] entries@[i].song_id as int),
            s@ == head + playlist_spec(entries@, i as int),
        decreases entries.len() - i,
    {
        let e = &entries[i];
        assert(vl_ok(entries@[i as int].song_id as int));
        let ghost before = s@;
        push_vl(&mut s, e.song_id);
        push_vl(&mut s, (i + 1) as i64);
        push_str(&mut s, e.title.as_str());
        push_char(&mut s, '\u{2}');
        push_str(&mut s, e.creator.as_str());
        push_char(&mut s, '\u{2}');
        assert(s@ =~= before + playlist_entry(entries@[i as int], i as int));
        i += 1;
        assert(s@ =~= head + playlist_spec(entries@, i as int));
    }
    s
}

/// The songs of a playlist being saved: a VL64 count below 6, then that
/// many VL64 song ids at most, stopping at the first that does not decode
/// (see `choices_spec`); `None` when the count does not decode or is 6 or
/// more.
pub open spec fn playlist_songs_spec(b: Seq<u8>) -> Option<Seq<int>> {
    match vl64_take_spec(b) {
        Some(Some((count, _))) => if count >= 6 {
            None
        } else {
            choices_spec(b)
        },
        _ => None,
    }
}

/// The songs of a playlist being saved (see `playlist_songs_spec`).
pub fn parse_playlist(args: &str) -> (r: Option<Vec<i32>>)
    requires
        choices_spec(args.spec_bytes()) is Some,
    ensures
        match playlist_songs_spec(args.spec_bytes()) {
            Some(ids) => r matches Some(v) && v@.map_values(|x: i32| x as int) == ids,
            None => r is None,
        },
{
    match take_vl64(args) {
        Some((count, _)) => {
            if count >= 6 {
                None
            } else {
                Some(chosen_answer_ids(args))
            }
        },
        None => None,
    }
}

} // verus!
