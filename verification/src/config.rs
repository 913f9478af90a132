//! Server configuration: the configuration types, their defaults, the legacy
//! `mysql.ini` reader, and how a configuration is put together from the
//! sections that were found.
use vstd::prelude::*;
use crate::assoc::{kv_map, kv_distinct, lemma_kv_dom, lemma_kv_index, lemma_kv_update, lemma_kv_push};
use crate::text::{
    to_chars, split_chars, split_spec, trim_chars, trim_spec, find_char, find_char_exec,
    sub_chars, string_of, parse_int_spec, parse_u16, owned,
};

verus! {

/// The listening side of the server.
#[derive(Debug, Clone)]
pub struct ServerConfig {
    pub game_port: u16,
    pub game_max_connections: usize,
    pub mus_port: Option<u16>,
    pub mus_host: Option<String>,
}

/// How to reach the database.
#[derive(Debug, Clone)]
pub struct DatabaseConfig {
    pub host: String,
    pub port: u16,
    pub name: String,
    pub user: String,
    pub password: String,
    pub max_connections: u32,
}

/// Emulator behaviour switches.
#[derive(Debug, Clone)]
pub struct EmulatorConfig {
    pub default_lang: String,
    pub enable_welcome_message: bool,
    pub enable_trading: bool,
}

impl Default for EmulatorConfig {
    /// What an absent `[emulator]` section stands for: all fields empty or off.
    fn default() -> (r: Self)
        ensures
            r.default_lang@ == Seq::<char>::empty(),
            !r.enable_welcome_message,
            !r.enable_trading,
    {
        EmulatorConfig {
            default_lang: String::new(),
            enable_welcome_message: false,
            enable_trading: false,
        }
    }
}

/// The whole configuration.
#[derive(Debug, Clone)]
pub struct AppConfig {
    pub server: ServerConfig,
    pub database: DatabaseConfig,
    pub emulator: EmulatorConfig,
}

/// Why a configuration could not be put together.
#[derive(Debug, Clone, Copy, PartialEq, Eq)]
pub enum ConfigError {
    /// Neither the TOML file nor the legacy file exists.
    NoConfigFound,
    /// The TOML file has no `[server]` section.
    MissingServerSection,
    /// The TOML file has neither `[database]` nor `[mysql]`.
    MissingDatabaseSection,
    /// The legacy file has no `[mysql]` section.
    MissingMysqlSection,
    /// The legacy `[mysql]` section has no `host`.
    MissingMysqlHost,
    /// The legacy `[mysql]` section has no `database`.
    MissingMysqlDatabase,
    /// The legacy `[mysql]` section has no `username`.
    MissingMysqlUsername,
    /// The TOML file is not valid TOML or does not fit the configuration's
    /// shape.
    InvalidToml,
}

/// Default database port.
pub fn default_mysql_port() -> (r: u16)
    ensures
        r == 3306,
{
    3306
}

/// Default limit of game connections.
pub fn default_game_max_connections() -> (r: usize)
    ensures
        r == 2000,
{
    2_000
}

/// Default size of the database pool.
pub fn default_pool_size() -> (r: u32)
    ensures
        r == 20,
{
    20
}

/// Default language key.
pub fn default_lang_key() -> (r: String)
    ensures
        r@ == seq!['e', 'n'],
{
    let mut s = String::new();
    crate::text::push_char(&mut s, 'e');
    crate::text::push_char(&mut s, 'n');
    s
}

/// Whether the welcome message is on by default.
pub fn default_welcome_enabled() -> (r: bool)
    ensures
        r,
{
    true
}

/// Whether trading is on by default.
pub fn default_trading_enabled() -> (r: bool)
    ensures
        r,
{
    true
}

// ---------------------------------------------------------------- INI

/// One `[section]` of an INI file: its keys and values.
#[derive(Debug)]
pub struct IniSection {
    name: String,
    entries: Vec<(String, String)>,
}

/// The sections of an INI file.
#[derive(Debug)]
pub struct IniDocument {
    sections: Vec<IniSection>,
}

/// The entries of a section as text pairs.
pub open spec fn entries_view(v: Seq<(String, String)>) -> Seq<(Seq<char>, Seq<char>)> {
    Seq::new(v.len(), |i: int| (v[i].0@, v[i].1@))
}

impl IniSection {
    /// The section's keys and values.
    pub closed spec fn map(&self) -> Map<Seq<char>, Seq<char>> {
        kv_map(entries_view(self.entries@))
    }

    /// The section's name.
    pub closed spec fn name_view(&self) -> Seq<char> {
        self.name@
    }

    /// No key occurs twice.
    pub closed spec fn wf(&self) -> bool {
        kv_distinct(entries_view(self.entries@))
    }

    /// The value of a key, if the section has it.
    pub fn get(&self, key: &str) -> (r: Option<&String>)
        requires
            self.wf(),
        ensures
            r == None::<&String> <==> !self.map().contains_key(key@),
            r matches Some(v) ==> self.map()[key@] == v@,
    {
        let n = self.entries.len();
        let mut i: usize = 0;
        while i < n
            invariant
                n == self.entries@.len(),
                self.wf(),
                0 <= i <= n,
                forall|j: int| 0 <= j < i ==> self.entries@[j].0@ != key@,
            decreases n - i,
        {
            if crate::text::str_eq(self.entries[i].0.as_str(), key) {
                proof {
                    lemma_kv_index(entries_view(self.entries@), i as int);
                }
                return Some(&self.entries[i].1);
            }
            i += 1;
        }
        proof {
            lemma_kv_dom(entries_view(self.entries@), key@);
        }
        None
    }
}

/// The sections of a document as text-keyed pairs.
pub open spec fn sections_view(v: Seq<IniSection>) -> Seq<(Seq<char>, Map<Seq<char>, Seq<char>>)> {
    Seq::new(v.len(), |i: int| (v[i].name_view(), v[i].map()))
}

impl View for IniDocument {
    type V = Map<Seq<char>, Map<Seq<char>, Seq<char>>>;

    closed spec fn view(&self) -> Self::V {
        kv_map(sections_view(self.sections@))
    }
}

impl IniDocument {
    /// Section names are distinct, and so are the keys in each section.
    pub closed spec fn wf(&self) -> bool {
        &&& kv_distinct(sections_view(self.sections@))
        &&& forall|i: int| 0 <= i < self.sections@.len() ==> #[trigger] self.sections@[i].wf()
    }

    /// The section of that name, if the document has one.
    pub fn section(&self, name: &str) -> (r: Option<&IniSection>)
        requires
            self.wf(),
        ensures
            r == None::<&IniSection> <==> !self@.contains_key(name@),
            r matches Some(s) ==> s.wf() && self@[name@] == s.map(),
    {
        match self.find(name) {
            Some(i) => Some(&self.sections[i]),
            None => None,
        }
    }

    fn find(&self, name: &str) -> (r: Option<usize>)
        requires
            self.wf(),
        ensures
            r == None::<usize> <==> !self@.contains_key(name@),
            r matches Some(i) ==> i < self.sections@.len() && self.sections@[i as int].name_view()
                == name@ && self@[name@] == self.sections@[i as int].map(),
    {
        let n = self.sections.len();
        let mut i: usize = 0;
        while i < n
            invariant
                n == self.sections@.len(),
                self.wf(),
                0 <= i <= n,
                forall|j: int| 0 <= j < i ==> self.sections@[j].name_view() != name@,
            decreases n - i,
        {
            if crate::text::str_eq(self.sections[i].name.as_str(), name) {
                proof {
                    lemma_kv_index(sections_view(self.sections@), i as int);
                }
                return Some(i);
            }
            i += 1;
        }
        proof {
            lemma_kv_dom(sections_view(self.sections@), name@);
        }
        None
    }

    /// Makes sure a section of that name exists; returns its index.
    fn touch(&mut self, name: String) -> (r: usize)
        requires
            old(self).wf(),
        ensures
            final(self).wf(),
            r < final(self).sections@.len(),
            final(self).sections@[r as int].name_view() == name@,
            final(self)@ == (if old(self)@.contains_key(name@) {
                old(self)@
            } else {
                old(self)@.insert(name@, Map::empty())
            }),
    {
        match self.find(name.as_str()) {
            Some(i) => i,
            None => {
                let sec = IniSection { name, entries: Vec::new() };
                assert(entries_view(sec.entries@) =~= Seq::<(Seq<char>, Seq<char>)>::empty());
                assert(sec.map() == Map::<Seq<char>, Seq<char>>::empty());
                let ghost before = self.sections@;
                proof {
                    lemma_kv_push(sections_view(before), sec.name_view(), sec.map());
                }
                self.sections.push(sec);
                assert(sections_view(self.sections@) =~= sections_view(before).push(
                    (sec.name_view(), sec.map()),
                ));
                assert forall|i: int| 0 <= i < self.sections@.len() implies #[trigger] self.sections@[i].wf() by {
                    if i < before.len() {
                        assert(self.sections@[i] == before[i]);
                    }
                }
                self.sections.len() - 1
            },
        }
    }

    /// Sets `key` to `value` in section `name`, creating the section if needed.
    fn set(&mut self, name: String, key: String, value: String)
        requires
            old(self).wf(),
        ensures
            final(self).wf(),
            final(self)@ == old(self)@.insert(
                name@,
                (if old(self)@.contains_key(name@) {
                    old(self)@[name@]
                } else {
                    Map::empty()
                }).insert(key@, value@),
            ),
    {
        let ghost start = self@;
        let idx = self.touch(name);
        let ghost mid = self.sections@;
        let mut sec = self.sections.remove(idx);
        let ghost sec0 = sec;
        assert(sec.wf());
        let n = sec.entries.len();
        let mut j: usize = 0;
        let mut found: Option<usize> = None;
        while j < n
            invariant_except_break
                found is None,
            invariant
                n == sec.entries@.len(),
                0 <= j <= n,
                forall|q: int| 0 <= q < j ==> sec.entries@[q].0@ != key@,
            ensures
                found matches Some(q) ==> q < n && sec.entries@[q as int].0@ == key@,
                found is None ==> forall|q: int| 0 <= q < n ==> sec.entries@[q].0@ != key@,
            decreases n - j,
        {
            if sec.entries[j].0 == key {
                found = Some(j);
                break;
            }
            j += 1;
        }
        let ghost ev = entries_view(sec.entries@);
        match found {
            Some(q) => {
                proof {
                    assert(ev[q as int].0 == key@);
                    lemma_kv_update(ev, q as int, value@);
                }
                let old_entry = sec.entries.remove(q);
                let kept_key = old_entry.0;
                sec.entries.insert(q, (kept_key, value));
                assert(entries_view(sec.entries@) =~= ev.update(q as int, (ev[q as int].0, value@)));
            },
            None => {
                proof {
                    lemma_kv_dom(ev, key@);
                    assert forall|q: int| 0 <= q < ev.len() implies ev[q].0 != key@ by {
                        assert(ev[q].0 == sec.entries@[q].0@);
                    }
                    lemma_kv_push(ev, key@, value@);
                }
                sec.entries.push((key, value));
                assert(entries_view(sec.entries@) =~= ev.push((key@, value@)));
            },
        }
        let ghost sec_map = sec.map();
        proof {
            let sv = sections_view(mid);
            assert(sv[idx as int].0 == sec.name_view());
            lemma_kv_index(sv, idx as int);
            lemma_kv_update(sv, idx as int, sec_map);
        }
        self.sections.insert(idx, sec);
        assert(sections_view(self.sections@) =~= sections_view(mid).update(
            idx as int,
            (sections_view(mid)[idx as int].0, sec_map),
        ));
        assert forall|i: int| 0 <= i < self.sections@.len() implies #[trigger] self.sections@[i].wf() by {
            if i != idx {
                assert(self.sections@[i] == mid[i]);
            }
        }
    }
}

/// What reading one line does to the document and the current section name:
/// blank lines and `;`/`#` comments are skipped, `[name]` opens a section, and
/// `key=value` sets a key of the current section; other lines are ignored.
pub open spec fn ini_step(
    st: (Map<Seq<char>, Map<Seq<char>, Seq<char>>>, Seq<char>),
    line: Seq<char>,
) -> (Map<Seq<char>, Map<Seq<char>, Seq<char>>>, Seq<char>) {
    let doc = st.0;
    let cur = st.1;
    let t = trim_spec(line);
    if t.len() == 0 || t[0] == ';' || t[0] == '#' {
        st
    } else if t[0] == '[' && t.last() == ']' {
        let name = trim_spec(t.subrange(1, t.len() - 1));
        (if doc.contains_key(name) { doc } else { doc.insert(name, Map::empty()) }, name)
    } else {
        match find_char(t, '=') {
            Some(i) => {
                let key = trim_spec(t.subrange(0, i));
                let value = trim_spec(t.subrange(i + 1, t.len() as int));
                let sec = if doc.contains_key(cur) { doc[cur] } else { Map::empty() };
                (doc.insert(cur, sec.insert(key, value)), cur)
            },
            None => st,
        }
    }
}

/// Reading lines from the first to the last.
pub open spec fn ini_fold(lines: Seq<Seq<char>>) -> (
    Map<Seq<char>, Map<Seq<char>, Seq<char>>>,
    Seq<char>,
)
    decreases lines.len(),
{
    if lines.len() == 0 {
        (Map::empty(), Seq::empty())
    } else {
        ini_step(ini_fold(lines.drop_last()), lines.last())
    }
}

/// The sections and keys of an INI text. Lines are cut at `\n`; a `\r` left at
/// a line's end goes with the trimming.
pub open spec fn ini_spec(raw: Seq<char>) -> Map<Seq<char>, Map<Seq<char>, Seq<char>>> {
    ini_fold(split_spec(raw, '\n')).0
}

/// Reads an INI text into its sections and keys.
pub fn parse_ini(raw: &str) -> (r: IniDocument)
    ensures
        r.wf(),
        r@ == ini_spec(raw@),
{
    let chars = to_chars(raw);
    let lines = split_chars(chars.as_slice(), '\n');
    let ghost ls = split_spec(raw@, '\n');
    let mut doc = IniDocument { sections: Vec::new() };
    assert(sections_view(doc.sections@) =~= Seq::<(Seq<char>, Map<Seq<char>, Seq<char>>)>::empty());
    let mut current: String = String::new();
    let n = lines.len();
    let mut i: usize = 0;
    assert(ls.take(0) =~= Seq::<Seq<char>>::empty());
    while i < n
        invariant
            n == ls.len(),
            lines@.len() == ls.len(),
            forall|j: int| 0 <= j < n ==> #[trigger] lines@[j]@ == ls[j],
            0 <= i <= n,
            doc.wf(),
            (doc@, current@) == ini_fold(ls.take(i as int)),
        decreases n - i,
    {
        assert(ls.take(i + 1).drop_last() =~= ls.take(i as int));
        assert(ls.take(i + 1).last() == ls[i as int]);
        let t = trim_chars(lines[i].as_slice());
        let tl = t.len();
        let ghost st = ini_fold(ls.take(i as int));
        assert(t@ == trim_spec(ls[i as int]));
        if tl == 0 || t[0] == ';' || t[0] == '#' {
            assert(ini_step(st, ls[i as int]) == st);
        } else if t[0] == '[' && t[tl - 1] == ']' {
            let inner = sub_chars(t.as_slice(), 1, tl - 1);
            let name_chars = trim_chars(inner.as_slice());
            let name = string_of(name_chars.as_slice());
            let name2 = string_of(name_chars.as_slice());
            assert(inner@ =~= t@.subrange(1, t@.len() - 1));
            doc.touch(name);
            current = name2;
            assert(t@.last() == ']');
            assert((doc@, current@) == ini_step(st, ls[i as int]));
        } else {
            match find_char_exec(t.as_slice(), '=') {
                Some(k) => {
                    let kc = sub_chars(t.as_slice(), 0, k);
                    let vc = sub_chars(t.as_slice(), k + 1, tl);
                    let key = string_of(trim_chars(kc.as_slice()).as_slice());
                    let value = string_of(trim_chars(vc.as_slice()).as_slice());
                    let sec = string_of(to_chars(current.as_str()).as_slice());
                    assert(kc@ =~= t@.subrange(0, k as int));
                    assert(vc@ =~= t@.subrange(k + 1, t@.len() as int));
                    assert(find_char(t@, '=') == Some(k as int));
                    assert(key@ == trim_spec(t@.subrange(0, k as int)));
                    assert(value@ == trim_spec(t@.subrange(k + 1, t@.len() as int)));
                    assert(sec@ == current@);
                    assert(!(t@[0] == '[' && t@.last() == ']'));
                    let ghost d0 = doc@;
                    doc.set(sec, key, value);
                    assert(doc@ == ini_step(st, ls[i as int]).0);
                    assert((doc@, current@) == ini_step(st, ls[i as int]));
                },
                None => {
                    assert(ini_step(st, ls[i as int]) == st);
                },
            }
        }
        i += 1;
    }
    assert(ls.take(n as int) =~= ls);
    doc
}

// ---------------------------------------------------------------- assembly

/// What the sections of a TOML file give: `[server]` is required,
/// `[database]` wins over the legacy `[mysql]`, and one of them is required.
pub open spec fn sections_config_result(
    server: Option<ServerConfig>,
    database: Option<DatabaseConfig>,
    mysql: Option<DatabaseConfig>,
    emulator: EmulatorConfig,
    r: Result<AppConfig, ConfigError>,
) -> bool {
    match server {
        None => r == Err::<AppConfig, ConfigError>(ConfigError::MissingServerSection),
        Some(srv) => match (database, mysql) {
            (None, None) => r == Err::<AppConfig, ConfigError>(ConfigError::MissingDatabaseSection),
            _ => r == Ok::<AppConfig, ConfigError>(
                AppConfig {
                    server: srv,
                    database: if database is Some { database.unwrap() } else { mysql.unwrap() },
                    emulator,
                },
            ),
        },
    }
}

/// The sections that a TOML configuration file holds, each where present.
#[derive(Debug, Clone)]
pub struct TomlSections {
    pub server: Option<ServerConfig>,
    pub database: Option<DatabaseConfig>,
    pub mysql: Option<DatabaseConfig>,
    pub emulator: EmulatorConfig,
}

impl AppConfig {
    /// Puts a configuration together from the sections of a TOML file:
    /// `[server]` is required, `[database]` wins over the legacy `[mysql]`.
    pub fn from_sections(
        server: Option<ServerConfig>,
        database: Option<DatabaseConfig>,
        mysql: Option<DatabaseConfig>,
        emulator: EmulatorConfig,
    ) -> (r: Result<AppConfig, ConfigError>)
        ensures
            sections_config_result(server, database, mysql, emulator, r),
    {
        let server = match server {
            Some(s) => s,
            None => {
                return Err(ConfigError::MissingServerSection);
            },
        };
        let database = match database {
            Some(d) => d,
            None => match mysql {
                Some(d) => d,
                None => {
                    return Err(ConfigError::MissingDatabaseSection);
                },
            },
        };
        Ok(AppConfig { server, database, emulator })
    }
}


/// The port a legacy `[mysql]` section gives: its `port` when that parses as a
/// port number, else the default.
pub open spec fn legacy_port(sec: Map<Seq<char>, Seq<char>>) -> int {
    if sec.contains_key("port"@) {
        match parse_int_spec(sec["port"@], false, 0, 65535) {
            Some(p) => p,
            None => 3306,
        }
    } else {
        3306
    }
}

/// What a legacy `mysql.ini` text gives: the errors for a missing section
/// or key, in the order they are checked, else the configuration built from
/// the `[mysql]` section with the legacy fixed ports.
pub open spec fn legacy_config_result(raw: Seq<char>, r: Result<AppConfig, ConfigError>) -> bool {
    ({
        let m = ini_spec(raw);
        let sec = m["mysql"@];
        if !m.contains_key("mysql"@) {
            r == Err::<AppConfig, ConfigError>(ConfigError::MissingMysqlSection)
        } else if !sec.contains_key("host"@) {
            r == Err::<AppConfig, ConfigError>(ConfigError::MissingMysqlHost)
        } else if !sec.contains_key("database"@) {
            r == Err::<AppConfig, ConfigError>(ConfigError::MissingMysqlDatabase)
        } else if !sec.contains_key("username"@) {
            r == Err::<AppConfig, ConfigError>(ConfigError::MissingMysqlUsername)
        } else {
            &&& r is Ok
            &&& r->Ok_0.server.game_port == 30000
            &&& r->Ok_0.server.game_max_connections == 2000
            &&& r->Ok_0.server.mus_port == Some(30001u16)
            &&& r->Ok_0.server.mus_host matches Some(h) && h@ == "127.0.0.1"@
            &&& r->Ok_0.database.host@ == sec["host"@]
            &&& r->Ok_0.database.port == legacy_port(sec)
            &&& r->Ok_0.database.name@ == sec["database"@]
            &&& r->Ok_0.database.user@ == sec["username"@]
            &&& r->Ok_0.database.password@ == (if sec.contains_key("password"@) {
                sec["password"@]
            } else {
                Seq::<char>::empty()
            })
            &&& r->Ok_0.database.max_connections == 20
            &&& r->Ok_0.emulator.default_lang@ == Seq::<char>::empty()
            &&& !r->Ok_0.emulator.enable_welcome_message
            &&& !r->Ok_0.emulator.enable_trading
        }
    })
}

impl AppConfig {
    /// Puts a configuration together from a legacy `mysql.ini` text. The
    /// server side takes the legacy fixed ports; `host`, `database` and
    /// `username` are required in `[mysql]`, in that order.
    pub fn from_legacy_ini(raw: &str) -> (r: Result<AppConfig, ConfigError>)
        ensures
            legacy_config_result(raw@, r),
    {
        let ini = parse_ini(raw);
        let mysql = match ini.section("mysql") {
            Some(s) => s,
            None => {
                return Err(ConfigError::MissingMysqlSection);
            },
        };
        let host = match mysql.get("host") {
            Some(h) => owned(h.as_str()),
            None => {
                return Err(ConfigError::MissingMysqlHost);
            },
        };
        let port = match mysql.get("port") {
            Some(p) => match parse_u16(p.as_str()) {
                Some(v) => v,
                None => default_mysql_port(),
            },
            None => default_mysql_port(),
        };
        let name = match mysql.get("database") {
            Some(v) => owned(v.as_str()),
            None => {
                return Err(ConfigError::MissingMysqlDatabase);
            },
        };
        let user = match mysql.get("username") {
            Some(v) => owned(v.as_str()),
            None => {
                return Err(ConfigError::MissingMysqlUsername);
            },
        };
        let password = match mysql.get("password") {
            Some(v) => owned(v.as_str()),
            None => String::new(),
        };
        Ok(AppConfig {
            server: ServerConfig {
                game_port: 30000,
                game_max_connections: default_game_max_connections(),
                mus_port: Some(30001),
                mus_host: Some(owned("127.0.0.1")),
            },
            database: DatabaseConfig {
                host,
                port,
                name,
                user,
                password,
                max_connections: default_pool_size(),
            },
            emulator: EmulatorConfig::default(),
        })
    }
}

impl AppConfig {
    /// Loads the configuration from what was found on disk: the TOML file's
    /// sections when that file exists (or the reason they could not be
    /// read), else the text of the legacy `mysql.ini`, else nothing.
    pub fn load(
        toml: Option<Result<TomlSections, ConfigError>>,
        legacy_ini: Option<&str>,
    ) -> (r: Result<AppConfig, ConfigError>)
        ensures
            toml matches Some(Err(e)) ==> r == Err::<AppConfig, ConfigError>(e),
            toml matches Some(Ok(t)) ==> sections_config_result(t.server, t.database, t.mysql, t.emulator, r),
            toml is None && legacy_ini is None ==> r == Err::<AppConfig, ConfigError>(ConfigError::NoConfigFound),
            toml is None ==> (legacy_ini matches Some(raw) ==> legacy_config_result(raw@, r)),
    {
        match toml {
            Some(Ok(t)) => Self::from_sections(t.server, t.database, t.mysql, t.emulator),
            Some(Err(e)) => Err(e),
            None => match legacy_ini {
                Some(raw) => Self::from_legacy_ini(raw),
                None => Err(ConfigError::NoConfigFound),
            },
        }
    }
}

} // verus!
