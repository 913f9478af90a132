//! The hotel's shared state that is not I/O: runtime settings, the string,
//! rank and recycler caches, trades, doorbell answers and connection ids.
use vstd::prelude::*;
use std::collections::{HashMap, HashSet};

use crate::assoc::TextMap;
use crate::codec::{push_vl64, vl64_text};
use crate::lobby::GameRank;
use crate::strings::{lowercase_of, replace_ci_runs, replace_ci_spec, strings_view, try_replace_case_insensitive};
use crate::text::{owned, push_char, push_str, str_eq};

verus! {

broadcast use vstd::std_specs::hash::group_hash_axioms;

/// Settings the server runs with, read from the configuration and the
/// database.
#[derive(Debug, Clone)]
pub struct RuntimeConfig {
    pub game_port: u16,
    pub game_max_connections: usize,
    pub mus_port: Option<u16>,
    pub mus_host: Option<String>,
    pub lang: String,
    pub rooms_loadadvertisement_img: String,
    pub rooms_loadadvertisement_uri: String,
    pub game_countdown_seconds: i32,
    pub game_score_window_restart_game_seconds: i32,
    pub game_battle_ball_game_length_seconds: i64,
    pub enable_trading: bool,
    pub enable_chat_anims: bool,
    pub enable_welcome_message: bool,
    pub enable_word_filter: bool,
    pub filter_censor: String,
}

impl Default for RuntimeConfig {
    /// The settings before configuration: game port 30000 with 2000
    /// connections, MUS on 30001 from 127.0.0.1, English, a 6 second
    /// countdown, 5 seconds before a restart, 120 second Battle Ball games,
    /// trading and the welcome message on, chat animations and the word
    /// filter off.
    fn default() -> (r: Self)
        ensures
            r.game_port == 30000,
            r.game_max_connections == 2000,
            r.mus_port == Some(30001u16),
            r.mus_host matches Some(h) && h@ == "127.0.0.1"@,
            r.lang@ == "en"@,
            r.rooms_loadadvertisement_img@.len() == 0,
            r.rooms_loadadvertisement_uri@.len() == 0,
            r.game_countdown_seconds == 6,
            r.game_score_window_restart_game_seconds == 5,
            r.game_battle_ball_game_length_seconds == 120,
            r.enable_trading,
            !r.enable_chat_anims,
            r.enable_welcome_message,
            !r.enable_word_filter,
            r.filter_censor@.len() == 0,
    {
        RuntimeConfig {
            game_port: 30000,
            game_max_connections: 2000,
            mus_port: Some(30001),
            mus_host: Some(owned("127.0.0.1")),
            lang: owned("en"),
            rooms_loadadvertisement_img: String::new(),
            rooms_loadadvertisement_uri: String::new(),
            game_countdown_seconds: 6,
            game_score_window_restart_game_seconds: 5,
            game_battle_ball_game_length_seconds: 120,
            enable_trading: true,
            enable_chat_anims: false,
            enable_welcome_message: true,
            enable_word_filter: false,
            filter_censor: String::new(),
        }
    }
}

/// The server settings as read from the `system_config` table (numbers
/// as read, 0 where a key is missing; texts empty where missing). The load
/// advertisement's address is only read when it has a picture.
#[derive(Debug, Clone)]
pub struct SystemSettings {
    pub game_port: i64,
    pub game_max_connections: i64,
    pub mus_port: i64,
    pub mus_host: String,
    pub rooms_loadadvertisement_img: String,
    pub rooms_loadadvertisement_uri: String,
    pub trading_enabled: String,
    pub chatanims_enabled: String,
    pub game_countdown_seconds: i64,
    pub game_score_window_restart_game_seconds: i64,
    pub game_battle_ball_game_length_seconds: i64,
    pub lang: String,
}

/// The load advertisement's address: kept when it starts with `http://`,
/// else the emulator's home page; none without a picture.
pub open spec fn advertisement_uri(img: Seq<char>, uri: Seq<char>) -> Seq<char> {
    if img.len() == 0 {
        Seq::empty()
    } else if crate::strings::string_part_spec(uri, 0, 7) == "http://"@ {
        uri
    } else {
        "http://wwww.holographemulator.com"@
    }
}

impl RuntimeConfig {
    /// Takes over the settings of the `system_config` table: a number that
    /// is positive once cast to its field's type replaces the default, as
    /// does a text that is not empty; trading stays on unless set to `0`,
    /// chat animations are on only when set to `1`.
    pub fn apply_system_settings(&mut self, s: SystemSettings)
        ensures
            final(self).game_port == (if (s.game_port as u16) > 0 { s.game_port as u16 } else { old(self).game_port }),
            final(self).game_max_connections == (if (s.game_max_connections as usize) > 0 { s.game_max_connections as usize } else { old(self).game_max_connections }),
            final(self).mus_port == (if (s.mus_port as u16) > 0 { Some(s.mus_port as u16) } else { old(self).mus_port }),
            final(self).mus_host.is_some() == (s.mus_host@.len() > 0 || old(self).mus_host.is_some()),
            s.mus_host@.len() > 0 ==> (final(self).mus_host matches Some(h) && h@ == s.mus_host@),
            s.mus_host@.len() == 0 ==> final(self).mus_host == old(self).mus_host,
            final(self).lang@ == (if s.lang@.len() > 0 { s.lang@ } else { old(self).lang@ }),
            final(self).rooms_loadadvertisement_img@ == s.rooms_loadadvertisement_img@,
            final(self).rooms_loadadvertisement_uri@ == advertisement_uri(s.rooms_loadadvertisement_img@, s.rooms_loadadvertisement_uri@),
            final(self).game_countdown_seconds == (if s.game_countdown_seconds > 0 { s.game_countdown_seconds as i32 } else { old(self).game_countdown_seconds }),
            final(self).game_score_window_restart_game_seconds == (if s.game_score_window_restart_game_seconds > 0 { s.game_score_window_restart_game_seconds as i32 } else { old(self).game_score_window_restart_game_seconds }),
            final(self).game_battle_ball_game_length_seconds == (if s.game_battle_ball_game_length_seconds > 0 { s.game_battle_ball_game_length_seconds } else { old(self).game_battle_ball_game_length_seconds }),
            final(self).enable_trading == (s.trading_enabled@ != "0"@),
            final(self).enable_chat_anims == (s.chatanims_enabled@ == "1"@),
            final(self).enable_welcome_message == old(self).enable_welcome_message,
            final(self).enable_word_filter == old(self).enable_word_filter,
            final(self).filter_censor == old(self).filter_censor,
    {
        let game_port = s.game_port as u16;
        if game_port > 0 {
            self.game_port = game_port;
        }
        let max_connections = s.game_max_connections as usize;
        if max_connections > 0 {
            self.game_max_connections = max_connections;
        }
        let mus_port = s.mus_port as u16;
        if mus_port > 0 {
            self.mus_port = Some(mus_port);
        }
        if !s.mus_host.as_str().is_empty() {
            self.mus_host = Some(s.mus_host);
        }
        if !s.lang.as_str().is_empty() {
            self.lang = s.lang;
        }
        let uri = if s.rooms_loadadvertisement_img.as_str().is_empty() {
            String::new()
        } else {
            let head = crate::strings::get_string_part(s.rooms_loadadvertisement_uri.as_str(), 0, 7);
            if str_eq(head.as_str(), "http://") {
                s.rooms_loadadvertisement_uri
            } else {
                owned("http://wwww.holographemulator.com")
            }
        };
        self.rooms_loadadvertisement_img = s.rooms_loadadvertisement_img;
        self.rooms_loadadvertisement_uri = uri;
        if s.game_countdown_seconds > 0 {
            self.game_countdown_seconds = s.game_countdown_seconds as i32;
        }
        if s.game_score_window_restart_game_seconds > 0 {
            self.game_score_window_restart_game_seconds = s.game_score_window_restart_game_seconds as i32;
        }
        if s.game_battle_ball_game_length_seconds > 0 {
            self.game_battle_ball_game_length_seconds = s.game_battle_ball_game_length_seconds;
        }
        self.enable_trading = !str_eq(s.trading_enabled.as_str(), "0");
        self.enable_chat_anims = str_eq(s.chatanims_enabled.as_str(), "1");
    }

    /// Turns the welcome message on when the table enables it and its text
    /// is not left as its own key.
    pub fn apply_welcome_message(&mut self, enable_entry: &str, welcome_text: &str)
        ensures
            final(self).enable_welcome_message == (enable_entry@ == "1"@ && welcome_text@ != "welcomemessage_text"@),
            *final(self) == (RuntimeConfig { enable_welcome_message: final(self).enable_welcome_message, ..*old(self) }),
    {
        self.enable_welcome_message = str_eq(enable_entry, "1") && !str_eq(welcome_text, "welcomemessage_text");
    }

    /// Turns the word filter on when the table enables it and there are
    /// words and a censor text; keeps the censor text.
    pub fn apply_word_filter(&mut self, enable_entry: &str, word_count: usize, censor: String)
        ensures
            final(self).enable_word_filter == (enable_entry@ == "1"@ && word_count > 0 && censor@.len() > 0),
            final(self).filter_censor@ == censor@,
            *final(self) == (RuntimeConfig {
                enable_word_filter: final(self).enable_word_filter,
                filter_censor: final(self).filter_censor,
                ..*old(self)
            }),
    {
        let enabled = str_eq(enable_entry, "1");
        self.enable_word_filter = enabled && word_count > 0 && !censor.as_str().is_empty();
        self.filter_censor = censor;
    }
}

// ---------------------------------------------------------------- strings

/// The hotel's texts by id, and the words the filter censors.
#[derive(Debug)]
pub struct StringCache {
    pub entries: TextMap<String>,
    pub swear_words: Vec<String>,
}

impl Default for StringCache {
    /// No texts and no words.
    fn default() -> (r: Self)
        ensures
            r.entries@ == Map::<Seq<char>, String>::empty(),
            r.swear_words@.len() == 0,
    {
        StringCache { entries: TextMap::new(), swear_words: Vec::new() }
    }
}

/// The text stored for key `i`: its value in the chosen language, or the key
/// itself where that value is missing or empty.
pub open spec fn loaded_value(keys: Seq<Seq<char>>, vars: Seq<Seq<char>>, i: int) -> Seq<char> {
    if i < vars.len() && vars[i].len() > 0 {
        vars[i]
    } else {
        keys[i]
    }
}

/// The texts loaded from the first `n` rows: rows with an empty key are
/// skipped, and a later row wins over an earlier one with the same key.
pub open spec fn loaded_strings(keys: Seq<Seq<char>>, vars: Seq<Seq<char>>, n: int) -> Map<Seq<char>, Seq<char>>
    decreases n,
{
    if n <= 0 {
        Map::empty()
    } else {
        let m = loaded_strings(keys, vars, n - 1);
        if keys[n - 1].len() == 0 {
            m
        } else {
            m.insert(keys[n - 1], loaded_value(keys, vars, n - 1))
        }
    }
}

/// The values of a text map read as character sequences.
pub open spec fn text_values(m: Map<Seq<char>, String>) -> Map<Seq<char>, Seq<char>> {
    m.map_values(|v: String| v@)
}

impl StringCache {
    /// Loads the texts from the rows of the string table: the keys and, in
    /// the same order, their values in the chosen language.
    pub fn load_entries(&mut self, keys: &[String], vars: &[String])
        ensures
            text_values(final(self).entries@) == loaded_strings(strings_view(keys@), strings_view(vars@), keys@.len() as int),
            final(self).swear_words@ == old(self).swear_words@,
    {
        let ghost ks = strings_view(keys@);
        let ghost vs = strings_view(vars@);
        let mut entries: TextMap<String> = TextMap::new();
        let mut i: usize = 0;
        assert(text_values(entries@) =~= loaded_strings(ks, vs, 0));
        while i < keys.len()
            invariant
                ks == strings_view(keys@),
                vs == strings_view(vars@),
                i <= keys@.len(),
                text_values(entries@) == loaded_strings(ks, vs, i as int),
            decreases keys@.len() - i,
        {
            if !keys[i].as_str().is_empty() {
                let value = if i < vars.len() && !vars[i].as_str().is_empty() {
                    vars[i].clone()
                } else {
                    keys[i].clone()
                };
                let ghost before = entries@;
                entries.insert(keys[i].clone(), value);
                assert(text_values(entries@) =~= text_values(before).insert(ks[i as int], loaded_value(ks, vs, i as int)));
            } else {
                assert(ks[i as int].len() == 0);
            }
            i += 1;
        }
        self.entries = entries;
    }

    /// The text of an id, or the id itself where there is none.
    pub fn get_string(&self, string_id: &str) -> (r: String)
        ensures
            r@ == (if self.entries@.contains_key(string_id@) {
                self.entries@[string_id@]@
            } else {
                string_id@
            }),
    {
        match self.entries.get(string_id) {
            Some(v) => v.clone(),
            None => owned(string_id),
        }
    }
}

/// What the word filter makes of a text: each word in turn replaced by the
/// censor without regard to case, or `None` where a replacement cannot run
/// (see `replace_ci_runs`).
pub open spec fn filtered_spec(text: Seq<char>, words: Seq<Seq<char>>, censor: Seq<char>) -> Option<Seq<char>>
    decreases words.len(),
{
    if words.len() == 0 {
        Some(text)
    } else {
        match filtered_spec(text, words.drop_last(), censor) {
            Some(t) => if replace_ci_runs(t, words.last(), lowercase_of(t), lowercase_of(words.last())) {
                Some(replace_ci_spec(t, words.last(), censor, lowercase_of(t), lowercase_of(words.last())))
            } else {
                None
            },
            None => None,
        }
    }
}

/// Censors the swear words in a text when the filter is on (see
/// `filtered_spec`); the text as it is when the filter is off.
pub fn filter_swearwords(text: &str, enabled: bool, swear_words: &[String], censor: &str) -> (r: Option<String>)
    ensures
        !enabled ==> (r matches Some(s) && s@ == text@),
        enabled ==> (match r {
            Some(s) => filtered_spec(text@, strings_view(swear_words@), censor@) == Some(s@),
            None => filtered_spec(text@, strings_view(swear_words@), censor@) is None,
        }),
{
    if !enabled {
        return Some(owned(text));
    }
    let ghost ws = strings_view(swear_words@);
    let mut filtered = owned(text);
    let mut i: usize = 0;
    assert(ws.take(0) =~= Seq::<Seq<char>>::empty());
    while i < swear_words.len()
        invariant
            enabled,
            ws == strings_view(swear_words@),
            i <= swear_words@.len(),
            filtered_spec(text@, ws.take(i as int), censor@) == Some(filtered@),
        decreases swear_words@.len() - i,
    {
        assert(ws.take(i + 1).drop_last() =~= ws.take(i as int));
        assert(ws.take(i + 1).last() == swear_words@[i as int]@);
        match try_replace_case_insensitive(filtered.as_str(), swear_words[i].as_str(), censor) {
            Some(next) => {
                filtered = next;
            },
            None => {
                proof {
                    lemma_filtered_none(text@, ws, censor@, i + 1);
                }
                return None;
            },
        }
        i += 1;
    }
    assert(ws.take(swear_words@.len() as int) =~= ws);
    Some(filtered)
}

/// Once a word cannot be replaced, the whole filter fails.
proof fn lemma_filtered_none(text: Seq<char>, words: Seq<Seq<char>>, censor: Seq<char>, k: int)
    requires
        0 <= k <= words.len(),
        filtered_spec(text, words.take(k), censor) is None,
    ensures
        filtered_spec(text, words, censor) is None,
    decreases words.len() - k,
{
    if k < words.len() {
        assert(words.take(k + 1).drop_last() =~= words.take(k));
        lemma_filtered_none(text, words, censor, k + 1);
    } else {
        assert(words.take(k) =~= words);
    }
}

// ---------------------------------------------------------------- ranks

/// The fuse rights of each user rank, and the game ranks of both games.
#[derive(Debug, Clone)]
pub struct RankCache {
    pub user_ranks: HashMap<u8, Vec<String>>,
    pub game_ranks_bb: Vec<GameRank>,
    pub game_ranks_ss: Vec<GameRank>,
}

impl Default for RankCache {
    /// No rights and no game ranks.
    fn default() -> (r: Self)
        ensures
            r.user_ranks@ == Map::<u8, Vec<String>>::empty(),
            r.game_ranks_bb@.len() == 0,
            r.game_ranks_ss@.len() == 0,
    {
        RankCache { user_ranks: HashMap::new(), game_ranks_bb: Vec::new(), game_ranks_ss: Vec::new() }
    }
}

/// Each right followed by `\u{2}`.
pub open spec fn rights_text(rights: Seq<Seq<char>>) -> Seq<char>
    decreases rights.len(),
{
    if rights.len() == 0 {
        Seq::empty()
    } else {
        rights_text(rights.drop_last()) + rights.last() + seq!['\u{2}']
    }
}

/// The rights of a rank, or none where the rank has none stored.
pub open spec fn rank_rights(m: Map<u8, Vec<String>>, rank: u8) -> Seq<Seq<char>> {
    if m.contains_key(rank) {
        strings_view(m[rank]@)
    } else {
        Seq::empty()
    }
}

/// The first game rank whose points range holds a score (an upper bound of
/// 0 means no upper bound).
pub open spec fn rank_for_score(ranks: Seq<GameRank>, score: i64) -> Option<int>
    decreases ranks.len(),
{
    if ranks.len() == 0 {
        None
    } else if score >= ranks[0].min_points && (ranks[0].max_points == 0 || score <= ranks[0].max_points) {
        Some(0)
    } else {
        match rank_for_score(ranks.drop_first(), score) {
            Some(i) => Some(i + 1),
            None => None,
        }
    }
}

/// The first game rank with a title.
pub open spec fn rank_with_title(ranks: Seq<GameRank>, title: Seq<char>) -> Option<int>
    decreases ranks.len(),
{
    if ranks.len() == 0 {
        None
    } else if ranks[0].title@ == title {
        Some(0)
    } else {
        match rank_with_title(ranks.drop_first(), title) {
            Some(i) => Some(i + 1),
            None => None,
        }
    }
}

/// The game ranks from the rows of the rank table: each title with the
/// points at the same place, or 0 where the column is shorter.
pub open spec fn loaded_rank(titles: Seq<String>, mins: Seq<i64>, maxs: Seq<i64>, i: int) -> (Seq<char>, i64, i64) {
    (titles[i]@, if i < mins.len() { mins[i] } else { 0 }, if i < maxs.len() { maxs[i] } else { 0 })
}

impl RankCache {
    /// The fuse rights of a rank, each followed by `\u{2}`.
    pub fn fuse_rights(&self, rank: u8) -> (r: String)
        ensures
            r@ == rights_text(rank_rights(self.user_ranks@, rank)),
    {
        let mut payload = String::new();
        match self.user_ranks.get(&rank) {
            Some(rights) => {
                let ghost rs = strings_view(rights@);
                let mut i: usize = 0;
                assert(rs.take(0) =~= Seq::<Seq<char>>::empty());
                while i < rights.len()
                    invariant
                        rs == strings_view(rights@),
                        i <= rights@.len(),
                        payload@ == rights_text(rs.take(i as int)),
                    decreases rights@.len() - i,
                {
                    assert(rs.take(i + 1).drop_last() =~= rs.take(i as int));
                    push_str(&mut payload, rights[i].as_str());
                    push_char(&mut payload, '\u{2}');
                    i += 1;
                }
                assert(rs.take(rights@.len() as int) =~= rs);
            },
            None => {},
        }
        payload
    }

    /// Whether a rank has a right.
    pub fn contains_right(&self, rank: u8, right: &str) -> (r: bool)
        ensures
            r == rank_rights(self.user_ranks@, rank).contains(right@),
    {
        match self.user_ranks.get(&rank) {
            Some(rights) => {
                let ghost rs = strings_view(rights@);
                assert(self.user_ranks@.contains_key(rank) && self.user_ranks@[rank] == *rights);
                let mut i: usize = 0;
                while i < rights.len()
                    invariant
                        rs == strings_view(rights@),
                        rank_rights(self.user_ranks@, rank) == rs,
                        i <= rights@.len(),
                        forall|j: int| 0 <= j < i ==> rs[j] != right@,
                    decreases rights@.len() - i,
                {
                    if str_eq(rights[i].as_str(), right) {
                        assert(rs[i as int] == right@);
                        assert(rank_rights(self.user_ranks@, rank) == rs);
                        assert(rs.contains(right@));
                        return true;
                    }
                    i += 1;
                }
                false
            },
            None => false,
        }
    }

    /// The title of the game rank that a score falls in, or
    /// `holo.cast.gamerank.null` where none does.
    pub fn get_game_rank_title(&self, is_battle_ball: bool, score: i64) -> (r: String)
        ensures
            ({
                let ranks = if is_battle_ball { self.game_ranks_bb@ } else { self.game_ranks_ss@ };
                r@ == (match rank_for_score(ranks, score) {
                    Some(i) => ranks[i].title@,
                    None => "holo.cast.gamerank.null"@,
                })
            }),
    {
        let ranks = if is_battle_ball { &self.game_ranks_bb } else { &self.game_ranks_ss };
        let mut i: usize = 0;
        assert(ranks@.subrange(0, ranks@.len() as int) =~= ranks@);
        while i < ranks.len()
            invariant
                ranks@ == (if is_battle_ball { self.game_ranks_bb@ } else { self.game_ranks_ss@ }),
                i <= ranks@.len(),
                rank_for_score(ranks@, score) == (match rank_for_score(ranks@.subrange(i as int, ranks@.len() as int), score) {
                    Some(k) => Some(k + i),
                    None => None,
                }),
            decreases ranks@.len() - i,
        {
            let rank = &ranks[i];
            assert(ranks@.subrange(i as int, ranks@.len() as int)[0] == ranks@[i as int]);
            if score >= rank.min_points && (rank.max_points == 0 || score <= rank.max_points) {
                return rank.title.clone();
            }
            assert(ranks@.subrange(i as int, ranks@.len() as int).drop_first() =~= ranks@.subrange(i + 1, ranks@.len() as int));
            i += 1;
        }
        owned("holo.cast.gamerank.null")
    }

    /// The game rank with a title, or the rank `holo.cast.gamerank.null`
    /// with no points where there is none.
    pub fn get_game_rank(&self, is_battle_ball: bool, title: &str) -> (r: GameRank)
        ensures
            ({
                let ranks = if is_battle_ball { self.game_ranks_bb@ } else { self.game_ranks_ss@ };
                match rank_with_title(ranks, title@) {
                    Some(i) => r.title@ == ranks[i].title@ && r.min_points == ranks[i].min_points && r.max_points == ranks[i].max_points,
                    None => r.title@ == "holo.cast.gamerank.null"@ && r.min_points == 0 && r.max_points == 0,
                }
            }),
    {
        let ranks = if is_battle_ball { &self.game_ranks_bb } else { &self.game_ranks_ss };
        let mut i: usize = 0;
        assert(ranks@.subrange(0, ranks@.len() as int) =~= ranks@);
        while i < ranks.len()
            invariant
                ranks@ == (if is_battle_ball { self.game_ranks_bb@ } else { self.game_ranks_ss@ }),
                i <= ranks@.len(),
                rank_with_title(ranks@, title@) == (match rank_with_title(ranks@.subrange(i as int, ranks@.len() as int), title@) {
                    Some(k) => Some(k + i),
                    None => None,
                }),
            decreases ranks@.len() - i,
        {
            assert(ranks@.subrange(i as int, ranks@.len() as int)[0] == ranks@[i as int]);
            if str_eq(ranks[i].title.as_str(), title) {
                return GameRank {
                    title: ranks[i].title.clone(),
                    min_points: ranks[i].min_points,
                    max_points: ranks[i].max_points,
                };
            }
            assert(ranks@.subrange(i as int, ranks@.len() as int).drop_first() =~= ranks@.subrange(i + 1, ranks@.len() as int));
            i += 1;
        }
        GameRank { title: owned("holo.cast.gamerank.null"), min_points: 0, max_points: 0 }
    }
}

/// Builds the game ranks from the columns of the rank table (see
/// `loaded_rank`).
pub fn load_game_ranks(titles: &[String], mins: &[i64], maxs: &[i64]) -> (r: Vec<GameRank>)
    ensures
        r@.len() == titles@.len(),
        forall|i: int| 0 <= i < r@.len() ==> (#[trigger] r@[i].title@, r@[i].min_points, r@[i].max_points) == loaded_rank(titles@, mins@, maxs@, i),
{
    let mut ranks: Vec<GameRank> = Vec::new();
    let mut i: usize = 0;
    while i < titles.len()
        invariant
            i <= titles@.len(),
            ranks@.len() == i,
            forall|j: int| 0 <= j < i ==> (#[trigger] ranks@[j].title@, ranks@[j].min_points, ranks@[j].max_points) == loaded_rank(titles@, mins@, maxs@, j),
        decreases titles@.len() - i,
    {
        let min_points = if i < mins.len() { mins[i] } else { 0 };
        let max_points = if i < maxs.len() { maxs[i] } else { 0 };
        ranks.push(GameRank { title: titles[i].clone(), min_points, max_points });
        i += 1;
    }
    ranks
}

// ---------------------------------------------------------------- catalogue and trades

/// A catalogue page: its name, its packet data, and the lowest rank that
/// sees it.
#[derive(Debug, Clone)]
pub struct CataloguePage {
    pub display_name: String,
    pub page_data: String,
    pub min_rank: u8,
}

impl Default for CataloguePage {
    /// An empty page for everyone.
    fn default() -> (r: Self)
        ensures
            r.display_name@.len() == 0,
            r.page_data@.len() == 0,
            r.min_rank == 0,
    {
        CataloguePage { display_name: String::new(), page_data: String::new(), min_rank: 0 }
    }
}

/// One side of a trade: the partner, whether this side accepted, and the
/// items it offers.
#[derive(Debug, Clone)]
pub struct TradeState {
    pub partner_user_id: i64,
    pub partner_room_uid: i64,
    pub accepted: bool,
    pub item_ids: Vec<i64>,
}

impl Default for TradeState {
    /// No partner, not accepted, nothing offered.
    fn default() -> (r: Self)
        ensures
            r.partner_user_id == 0,
            r.partner_room_uid == 0,
            !r.accepted,
            r.item_ids@.len() == 0,
    {
        TradeState { partner_user_id: 0, partner_room_uid: 0, accepted: false, item_ids: Vec::new() }
    }
}

/// Row counts of the main tables.
#[derive(Debug, Clone, Copy)]
pub struct DatabaseStats {
    pub users: i64,
    pub rooms: i64,
    pub furniture: i64,
}

// ---------------------------------------------------------------- recycler

/// The recycler's settings and rewards.
#[derive(Debug, Clone)]
pub struct RecyclerCache {
    pub enabled: bool,
    pub session_length: i64,
    pub session_expire_length: i64,
    pub item_min_ownership_length: i64,
    pub session_rewards: HashMap<i64, i64>,
    pub setup_string: String,
}

impl Default for RecyclerCache {
    /// Off, with zero lengths, no rewards and no setup text.
    fn default() -> (r: Self)
        ensures
            !r.enabled,
            r.session_length == 0,
            r.session_expire_length == 0,
            r.item_min_ownership_length == 0,
            r.session_rewards@ == Map::<i64, i64>::empty(),
            r.setup_string@.len() == 0,
    {
        RecyclerCache {
            enabled: false,
            session_length: 0,
            session_expire_length: 0,
            item_min_ownership_length: 0,
            session_rewards: HashMap::new(),
            setup_string: String::new(),
        }
    }
}

/// What the recycler shows a user about their session.
#[derive(Debug, Clone, Copy, PartialEq, Eq, Structural)]
pub enum RecyclerStatus {
    /// No session, or the recycler is off.
    Idle,
    /// Still recycling: the reward and the minutes left.
    Recycling,
    /// Done: the reward can be collected.
    Ready,
    /// The session ran out.
    Expired,
}

/// The status of a recycler session that started `minutes` ago.
pub open spec fn recycler_status_spec(c: RecyclerCache, exists: bool, minutes: i64) -> RecyclerStatus {
    if !c.enabled || !exists {
        RecyclerStatus::Idle
    } else if minutes < c.session_length {
        RecyclerStatus::Recycling
    } else if minutes > c.session_expire_length {
        RecyclerStatus::Expired
    } else if minutes > c.session_length {
        RecyclerStatus::Ready
    } else {
        RecyclerStatus::Idle
    }
}

impl RecyclerCache {
    /// Whether recycling that many items gives a reward.
    pub fn reward_exists(&self, item_count: i64) -> (r: bool)
        ensures
            r == self.session_rewards@.contains_key(item_count),
    {
        self.session_rewards.contains_key(&item_count)
    }

    /// The reward for recycling that many items, if there is one.
    pub fn session_reward(&self, item_count: i64) -> (r: Option<i64>)
        ensures
            r == (if self.session_rewards@.contains_key(item_count) {
                Some(self.session_rewards@[item_count])
            } else {
                None
            }),
    {
        match self.session_rewards.get(&item_count) {
            Some(v) => Some(*v),
            None => None,
        }
    }

    /// The status of a user's session (see `recycler_status_spec`): whether
    /// the user has a session, and how many minutes ago it started.
    pub fn session_status(&self, session_exists: bool, minutes_passed: i64) -> (r: RecyclerStatus)
        ensures
            r == recycler_status_spec(*self, session_exists, minutes_passed),
    {
        if !self.enabled || !session_exists {
            RecyclerStatus::Idle
        } else if minutes_passed < self.session_length {
            RecyclerStatus::Recycling
        } else if minutes_passed > self.session_expire_length {
            RecyclerStatus::Expired
        } else if minutes_passed > self.session_length {
            RecyclerStatus::Ready
        } else {
            RecyclerStatus::Idle
        }
    }

    /// Whether a user's session can be collected: it exists and its time
    /// is over but has not run out.
    pub fn session_ready(&self, session_exists: bool, minutes_passed: i64) -> (r: bool)
        ensures
            r == (session_exists && minutes_passed > self.session_length && minutes_passed < self.session_expire_length),
    {
        session_exists && minutes_passed > self.session_length && minutes_passed < self.session_expire_length
    }
}

/// The session text the recycler sends: `IH<sprite>\u{2}` and the minutes
/// left while recycling, `JH<sprite>\u{2}` when ready, `K` when expired,
/// `H` otherwise.
pub open spec fn session_text_spec(status: RecyclerStatus, sprite: Seq<char>, minutes_left: int) -> Seq<char> {
    match status {
        RecyclerStatus::Recycling => seq!['I', 'H'] + sprite + seq!['\u{2}'] + vl64_text(crate::text::wrap32(minutes_left)),
        RecyclerStatus::Ready => seq!['J', 'H'] + sprite + seq!['\u{2}'],
        RecyclerStatus::Expired => seq!['K'],
        RecyclerStatus::Idle => seq!['H'],
    }
}

/// Builds the session text of a status (see `session_text_spec`);
/// `minutes_left` is the session length less the minutes passed.
pub fn session_text(status: RecyclerStatus, sprite: &str, minutes_left: i64) -> (r: String)
    requires
        status == RecyclerStatus::Recycling ==> crate::text::wrap32(minutes_left as int) != i32::MIN,
    ensures
        r@ == session_text_spec(status, sprite@, minutes_left as int),
{
    let mut s = String::new();
    match status {
        RecyclerStatus::Recycling => {
            push_char(&mut s, 'I');
            push_char(&mut s, 'H');
            push_str(&mut s, sprite);
            push_char(&mut s, '\u{2}');
            push_vl64(&mut s, crate::text::trunc_i64(minutes_left));
        },
        RecyclerStatus::Ready => {
            push_char(&mut s, 'J');
            push_char(&mut s, 'H');
            push_str(&mut s, sprite);
            push_char(&mut s, '\u{2}');
        },
        RecyclerStatus::Expired => {
            push_char(&mut s, 'K');
        },
        RecyclerStatus::Idle => {
            push_char(&mut s, 'H');
        },
    }
    assert(s@ =~= session_text_spec(status, sprite@, minutes_left as int));
    s
}

// ---------------------------------------------------------------- doorbell and connections

/// The room each user was let in to, or turned away from, at the doorbell.
#[derive(Debug, Clone)]
pub struct DoorbellAnswers {
    pub entries: HashMap<i64, i64>,
}

impl DoorbellAnswers {
    /// No answers.
    pub fn new() -> (r: Self)
        ensures
            r.entries@ == Map::<i64, i64>::empty(),
    {
        DoorbellAnswers { entries: HashMap::new() }
    }

    /// Records an answer for a user and a room, replacing the user's
    /// earlier one.
    pub fn record(&mut self, user_id: i64, room_id: i64)
        ensures
            final(self).entries@ == old(self).entries@.insert(user_id, room_id),
    {
        self.entries.insert(user_id, room_id);
    }

    /// Uses up the user's answer for this room: true, and the answer is
    /// gone, when there was one for this room; false, and nothing changes,
    /// otherwise.
    pub fn consume(&mut self, user_id: i64, room_id: i64) -> (r: bool)
        ensures
            r == (old(self).entries@.contains_key(user_id) && old(self).entries@[user_id] == room_id),
            r ==> final(self).entries@ == old(self).entries@.remove(user_id),
            !r ==> final(self).entries@ == old(self).entries@,
    {
        let found = match self.entries.get(&user_id) {
            Some(v) => *v == room_id,
            None => false,
        };
        if found {
            self.entries.remove(&user_id);
        }
        found
    }

    /// Forgets the user's answer.
    pub fn clear(&mut self, user_id: i64)
        ensures
            final(self).entries@ == old(self).entries@.remove(user_id),
    {
        self.entries.remove(&user_id);
    }
}

/// An answer recorded at the doorbell lets the user in once: the first use
/// for that room succeeds, a second one fails.
pub proof fn law_doorbell_answer_used_once(m: Map<i64, i64>, user_id: i64, room_id: i64)
    ensures
        ({
            let after_record = m.insert(user_id, room_id);
            &&& after_record.contains_key(user_id) && after_record[user_id] == room_id
            &&& !after_record.remove(user_id).contains_key(user_id)
        }),
{
}

/// The connection ids in use.
#[derive(Debug)]
pub struct ConnectionIds {
    pub active: HashSet<usize>,
}

impl ConnectionIds {
    /// No ids in use.
    pub fn new() -> (r: Self)
        ensures
            r.active@ == Set::<usize>::empty(),
    {
        ConnectionIds { active: HashSet::new() }
    }

    /// Takes the smallest free id below `max_connections`, starting at 1;
    /// `None` when all are in use.
    pub fn allocate(&mut self, max_connections: usize) -> (r: Option<usize>)
        ensures
            match r {
                Some(id) => {
                    &&& 1 <= id < max_connections
                    &&& !old(self).active@.contains(id)
                    &&& forall|j: usize| 1 <= j < id ==> old(self).active@.contains(j)
                    &&& final(self).active@ == old(self).active@.insert(id)
                },
                None => {
                    &&& forall|j: usize| 1 <= j < max_connections ==> old(self).active@.contains(j)
                    &&& final(self).active@ == old(self).active@
                },
            },
    {
        let mut id: usize = 1;
        while id < max_connections
            invariant
                1 <= id,
                self.active@ == old(self).active@,
                forall|j: usize| 1 <= j < id ==> old(self).active@.contains(j),
            decreases max_connections - id,
        {
            if self.active.insert(id) {
                return Some(id);
            }
            id += 1;
        }
        None
    }

    /// Gives an id back.
    pub fn free(&mut self, id: usize)
        ensures
            final(self).active@ == old(self).active@.remove(id),
    {
        self.active.remove(&id);
    }
}

/// An id that was given back is free again: taking ids after that cannot
/// fail while it stays below the limit.
pub proof fn law_freed_id_reusable(active: Set<usize>, id: usize, max: usize)
    requires
        1 <= id < max,
    ensures
        exists|j: usize| 1 <= j < max && !active.remove(id).contains(j),
{
    assert(!active.remove(id).contains(id));
}

} // verus!
