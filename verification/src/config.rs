//! The options of the forwarder, their defaults, and how they are read from
//! a TOML document.

use vstd::prelude::*;
use toml::Table;
use crate::cache::limit_map::names_of;

verus! {

/// The options of the forwarder.
#[derive(Debug)]
pub struct Config {
    pub cache_on: bool,
    pub cache_file: String,
    pub cache_num: usize,
    pub port: u16,
    pub servers: Vec<String>,
    pub filters: Vec<String>,
    pub log_level: String,
    pub ip_choose_strategy: usize,
    pub cache_get_strategy: usize,
    pub cache_ttl_timeout_ms: usize,
    pub server_choose_strategy: usize,
    pub server_choose_duration_h: usize,
}

/// What a configuration document says of each option; `None` where it says
/// nothing, or something of another type than the option has.
#[derive(Debug)]
pub struct ConfigOptions {
    pub cache: Option<bool>,
    pub cache_file: Option<String>,
    pub cache_num: Option<i64>,
    pub port: Option<i64>,
    pub servers: Option<Vec<Option<String>>>,
    pub filters: Option<Vec<Option<String>>>,
    pub log_level: Option<String>,
    pub ip_choose_strategy: Option<i64>,
    pub cache_get_strategy: Option<i64>,
    pub cache_ttl_timeout_ms: Option<i64>,
    pub server_choose_strategy: Option<i64>,
    pub server_choose_duration_h: Option<i64>,
}

/// Why a configuration was refused.
#[derive(Debug, Clone, Copy, PartialEq, Eq, Structural)]
pub enum ConfigError {
    /// The document is not well-formed TOML.
    Syntax,
    /// A list of servers or filters holds something that is not a string.
    NotText,
    /// A number does not fit the option it is given for.
    OutOfRange,
    /// A strategy is named by a number that stands for none.
    UnknownStrategy,
}

/// The number that an option gets: `given` where there is one, else
/// `default`.
pub open spec fn number_or(given: Option<i64>, default: int) -> int {
    match given {
        Some(n) => n as int,
        None => default,
    }
}

/// The text that an option gets: `given` where there is one, else `default`.
pub open spec fn text_or(given: Option<String>, default: Seq<char>) -> Seq<char> {
    match given {
        Some(text) => text@,
        None => default,
    }
}

/// Whether every item of the list is a string; an option without a list
/// passes.
pub open spec fn all_text(given: Option<Vec<Option<String>>>) -> bool {
    match given {
        Some(list) => forall|i: int| 0 <= i < list@.len() ==> (#[trigger] list@[i]) is Some,
        None => true,
    }
}

/// The strings of the list, in their order; none for an option without a
/// list.
pub open spec fn texts_of(given: Option<Vec<Option<String>>>) -> Seq<Seq<char>> {
    match given {
        Some(list) => Seq::new(list@.len(), |i: int| list@[i].unwrap()@),
        None => Seq::<Seq<char>>::empty(),
    }
}

impl ConfigOptions {
    /// Why these options are refused, if they are: a list item that is no
    /// string, then a number out of its option's range, then a strategy
    /// that does not exist.
    pub open spec fn fault(self) -> Option<ConfigError> {
        if !all_text(self.servers) || !all_text(self.filters) {
            Some(ConfigError::NotText)
        } else if !(0 <= number_or(self.cache_num, 1000) <= usize::MAX && 0 <= number_or(
            self.port,
            2053,
        ) <= u16::MAX && 0 <= number_or(self.cache_ttl_timeout_ms, 0) <= usize::MAX && 0
            <= number_or(self.server_choose_duration_h, 12) <= usize::MAX) {
            Some(ConfigError::OutOfRange)
        } else if !(0 <= number_or(self.ip_choose_strategy, 0) <= 1 && 0 <= number_or(
            self.cache_get_strategy,
            0,
        ) <= 1 && 0 <= number_or(self.server_choose_strategy, 0) <= 2) {
            Some(ConfigError::UnknownStrategy)
        } else {
            None
        }
    }

    /// Whether `r` is what these options come to: the configuration that
    /// they stand for, or the fault for which they are refused.
    pub open spec fn results_in(self, r: Result<Config, ConfigError>) -> bool {
        match r {
            Ok(config) => self.fault() is None && self.yields(config),
            Err(e) => self.fault() == Some(e),
        }
    }

    /// Whether `config` is what these options stand for, each option that
    /// is not given at its default.
    pub open spec fn yields(self, config: Config) -> bool {
        &&& config.cache_on == match self.cache {
            Some(on) => on,
            None => true,
        }
        &&& config.cache_file@ == text_or(self.cache_file, "cache"@)
        &&& config.cache_num == number_or(self.cache_num, 1000)
        &&& config.port == number_or(self.port, 2053)
        &&& names_of(config.servers@) == texts_of(self.servers)
        &&& names_of(config.filters@) == texts_of(self.filters)
        &&& config.log_level@ == text_or(self.log_level, "error"@)
        &&& config.ip_choose_strategy == number_or(self.ip_choose_strategy, 0)
        &&& config.cache_get_strategy == number_or(self.cache_get_strategy, 0)
        &&& config.cache_ttl_timeout_ms == number_or(self.cache_ttl_timeout_ms, 0)
        &&& config.server_choose_strategy == number_or(self.server_choose_strategy, 0)
        &&& config.server_choose_duration_h == number_or(self.server_choose_duration_h, 12)
    }
}

/// The number of an option as a `usize`, where it fits.
fn to_usize(given: Option<i64>, default: usize) -> (r: Option<usize>)
    ensures
        match r {
            Some(n) => n == number_or(given, default as int),
            None => !(0 <= number_or(given, default as int) <= usize::MAX),
        },
{
    match given {
        None => Some(default),
        Some(n) => if n < 0 || n as u64 > usize::MAX as u64 {
            None
        } else {
            Some(n as usize)
        },
    }
}

/// The strings of a list, where every item is one.
fn to_texts(given: Option<Vec<Option<String>>>) -> (r: Option<Vec<String>>)
    ensures
        match r {
            Some(texts) => all_text(given) && names_of(texts@) == texts_of(given),
            None => !all_text(given),
        },
{
    match given {
        None => {
            let texts: Vec<String> = Vec::new();
            assert(names_of(texts@) =~= texts_of(given));
            Some(texts)
        },
        Some(list) => {
            let mut texts: Vec<String> = Vec::new();
            let n = list.len();
            let mut i: usize = 0;
            while i < n
                invariant
                    given == Some(list),
                    n == list@.len(),
                    i <= n,
                    texts@.len() == i,
                    forall|k: int| 0 <= k < i ==> (#[trigger] list@[k]) is Some,
                    forall|k: int| 0 <= k < i ==> (#[trigger] texts@[k])@ == list@[k].unwrap()@,
                decreases n - i,
            {
                match &list[i] {
                    Some(text) => {
                        texts.push(text.clone());
                    },
                    None => {
                        assert(list@[i as int] is None);
                        return None;
                    },
                }
                i = i + 1;
            }
            assert(names_of(texts@) =~= texts_of(given));
            Some(texts)
        },
    }
}

impl Config {
    /// The configuration that `options` stand for.
    pub fn from(options: ConfigOptions) -> (r: Result<Config, ConfigError>)
        ensures
            options.results_in(r),
    {
        let cache_file = match options.cache_file {
            Some(text) => text,
            None => "cache".to_owned(),
        };
        let log_level = match options.log_level {
            Some(text) => text,
            None => "error".to_owned(),
        };
        let cache_on = match options.cache {
            Some(on) => on,
            None => true,
        };
        let servers = match to_texts(options.servers) {
            Some(servers) => servers,
            None => { return Err(ConfigError::NotText); },
        };
        let filters = match to_texts(options.filters) {
            Some(filters) => filters,
            None => { return Err(ConfigError::NotText); },
        };
        let cache_num = to_usize(options.cache_num, 1000);
        let port = to_usize(options.port, 2053);
        let cache_ttl_timeout_ms = to_usize(options.cache_ttl_timeout_ms, 0);
        let server_choose_duration_h = to_usize(options.server_choose_duration_h, 12);
        let (cache_num, port, cache_ttl_timeout_ms, server_choose_duration_h) = match (
            cache_num,
            port,
            cache_ttl_timeout_ms,
            server_choose_duration_h,
        ) {
            (Some(a), Some(b), Some(c), Some(d)) => if b > 0xFFFF {
                return Err(ConfigError::OutOfRange);
            } else {
                (a, b as u16, c, d)
            },
            _ => { return Err(ConfigError::OutOfRange); },
        };
        let ip_choose_strategy = to_usize(options.ip_choose_strategy, 0);
        let cache_get_strategy = to_usize(options.cache_get_strategy, 0);
        let server_choose_strategy = to_usize(options.server_choose_strategy, 0);
        let (ip_choose_strategy, cache_get_strategy, server_choose_strategy) = match (
            ip_choose_strategy,
            cache_get_strategy,
            server_choose_strategy,
        ) {
            (Some(a), Some(b), Some(c)) => if a > 1 || b > 1 || c > 2 {
                return Err(ConfigError::UnknownStrategy);
            } else {
                (a, b, c)
            },
            _ => { return Err(ConfigError::UnknownStrategy); },
        };
        Ok(
            Config {
                cache_on,
                cache_file,
                cache_num,
                port,
                servers,
                filters,
                log_level,
                ip_choose_strategy,
                cache_get_strategy,
                cache_ttl_timeout_ms,
                server_choose_strategy,
                server_choose_duration_h,
            },
        )
    }
}

#[verifier::external_type_specification]
#[verifier::external_body]
#[verifier::reject_recursive_types(K)]
#[verifier::reject_recursive_types(V)]
pub struct ExTomlMap<K, V>(toml::map::Map<K, V>);

#[verifier::external_type_specification]
#[verifier::external_body]
pub struct ExTomlValue(toml::Value);

#[verifier::external_type_specification]
#[verifier::external_body]
pub struct ExTomlError(toml::de::Error);

/// What stands under a key of a TOML table, as far as the options need it.
pub enum TomlItem {
    Text(Seq<char>),
    Integer(i64),
    Boolean(bool),
    /// A list: each item that is a string, and `None` for any other item.
    List(Seq<Option<Seq<char>>>),
    Other,
}

/// What a TOML table holds at its top level: every key with its item.
pub uninterp spec fn table_items(table: Table) -> Map<Seq<char>, TomlItem>;

/// The top-level table of the TOML document `text`; `None` where the text
/// is no well-formed TOML document.
pub uninterp spec fn toml_document(text: Seq<char>) -> Option<Map<Seq<char>, TomlItem>>;

/// The string under `key`, where there is one.
pub open spec fn item_text(items: Map<Seq<char>, TomlItem>, key: Seq<char>) -> Option<Seq<char>> {
    if items.contains_key(key) {
        match items[key] {
            TomlItem::Text(text) => Some(text),
            _ => None,
        }
    } else {
        None
    }
}

/// The integer under `key`, where there is one.
pub open spec fn item_integer(items: Map<Seq<char>, TomlItem>, key: Seq<char>) -> Option<i64> {
    if items.contains_key(key) {
        match items[key] {
            TomlItem::Integer(n) => Some(n),
            _ => None,
        }
    } else {
        None
    }
}

/// The boolean under `key`, where there is one.
pub open spec fn item_bool(items: Map<Seq<char>, TomlItem>, key: Seq<char>) -> Option<bool> {
    if items.contains_key(key) {
        match items[key] {
            TomlItem::Boolean(b) => Some(b),
            _ => None,
        }
    } else {
        None
    }
}

/// The list under `key`, where there is one.
pub open spec fn item_list(items: Map<Seq<char>, TomlItem>, key: Seq<char>) -> Option<
    Seq<Option<Seq<char>>>,
> {
    if items.contains_key(key) {
        match items[key] {
            TomlItem::List(list) => Some(list),
            _ => None,
        }
    } else {
        None
    }
}

/// What each item of a list of optional strings holds.
pub open spec fn optional_texts(list: Seq<Option<String>>) -> Seq<Option<Seq<char>>> {
    Seq::new(
        list.len(),
        |i: int|
            match list[i] {
                Some(text) => Some(text@),
                None => None,
            },
    )
}

/// Reads a TOML document.
///
/// Wraps `<toml::Table as FromStr>::from_str`, which parses a TOML document
/// into its top-level table and fails where the text is not well-formed.
#[verifier::external_body]
fn toml_parse(text: &str) -> (r: Result<Table, toml::de::Error>)
    ensures
        match r {
            Ok(table) => toml_document(text@) == Some(table_items(table)),
            Err(_) => toml_document(text@) is None,
        },
{
    text.parse::<Table>()
}

/// The string under `key`.
///
/// Wraps `Map::get`, which is the value of the key where the table has the
/// key, and `Value::as_str`, which is the string where the value is one.
#[verifier::external_body]
fn table_str(table: &Table, key: &str) -> (r: Option<String>)
    ensures
        match r {
            Some(text) => item_text(table_items(*table), key@) == Some(text@),
            None => item_text(table_items(*table), key@) is None,
        },
{
    table.get(key).and_then(toml::Value::as_str).map(String::from)
}

/// The integer under `key`.
///
/// Wraps `Map::get` and `Value::as_integer`, which is the integer where
/// the value is one.
#[verifier::external_body]
fn table_integer(table: &Table, key: &str) -> (r: Option<i64>)
    ensures
        r == item_integer(table_items(*table), key@),
{
    table.get(key).and_then(toml::Value::as_integer)
}

/// The boolean under `key`.
///
/// Wraps `Map::get` and `Value::as_bool`, which is the boolean where the
/// value is one.
#[verifier::external_body]
fn table_bool(table: &Table, key: &str) -> (r: Option<bool>)
    ensures
        r == item_bool(table_items(*table), key@),
{
    table.get(key).and_then(toml::Value::as_bool)
}

/// The list under `key`, each item as the string it is or as `None`.
///
/// Wraps `Map::get`, `Value::as_array`, which is the list of values where
/// the value is an array, and `Value::as_str` on each item.
#[verifier::external_body]
fn table_list(table: &Table, key: &str) -> (r: Option<Vec<Option<String>>>)
    ensures
        match r {
            Some(list) => item_list(table_items(*table), key@) == Some(optional_texts(list@)),
            None => item_list(table_items(*table), key@) is None,
        },
{
    table.get(key).and_then(toml::Value::as_array).map(
        |a| a.iter().map(|v| v.as_str().map(String::from)).collect(),
    )
}

/// Whether `options` is what a table with the items `items` says of each
/// option, every option under its key.
pub open spec fn read_from(options: ConfigOptions, items: Map<Seq<char>, TomlItem>) -> bool {
    &&& options.cache == item_bool(items, "cache"@)
    &&& options.cache_num == item_integer(items, "cache-num"@)
    &&& options.port == item_integer(items, "port"@)
    &&& options.ip_choose_strategy == item_integer(items, "ip-choose-strategy"@)
    &&& options.cache_get_strategy == item_integer(items, "cache-get-strategy"@)
    &&& options.cache_ttl_timeout_ms == item_integer(items, "cache-ttl-timeout-ms"@)
    &&& options.server_choose_strategy == item_integer(items, "server-choose-strategy"@)
    &&& options.server_choose_duration_h == item_integer(items, "server-choose-duration-h"@)
    &&& text_view(options.cache_file) == item_text(items, "cache-file"@)
    &&& text_view(options.log_level) == item_text(items, "log-level"@)
    &&& list_view(options.servers) == item_list(items, "servers"@)
    &&& list_view(options.filters) == item_list(items, "filters"@)
}

/// What an optional string holds.
pub open spec fn text_view(text: Option<String>) -> Option<Seq<char>> {
    match text {
        Some(t) => Some(t@),
        None => None,
    }
}

/// What an optional list of optional strings holds.
pub open spec fn list_view(list: Option<Vec<Option<String>>>) -> Option<Seq<Option<Seq<char>>>> {
    match list {
        Some(l) => Some(optional_texts(l@)),
        None => None,
    }
}

/// What `table` says of each option.
pub fn read_options(table: &Table) -> (options: ConfigOptions)
    ensures
        read_from(options, table_items(*table)),
{
    ConfigOptions {
        cache: table_bool(table, "cache"),
        cache_file: table_str(table, "cache-file"),
        cache_num: table_integer(table, "cache-num"),
        port: table_integer(table, "port"),
        servers: table_list(table, "servers"),
        filters: table_list(table, "filters"),
        log_level: table_str(table, "log-level"),
        ip_choose_strategy: table_integer(table, "ip-choose-strategy"),
        cache_get_strategy: table_integer(table, "cache-get-strategy"),
        cache_ttl_timeout_ms: table_integer(table, "cache-ttl-timeout-ms"),
        server_choose_strategy: table_integer(table, "server-choose-strategy"),
        server_choose_duration_h: table_integer(table, "server-choose-duration-h"),
    }
}

/// Whether `r` is what a table with the items `items` comes to: what the
/// table says of each option is refused or made a configuration as
/// [`Config::from`] does.
pub open spec fn made_from(items: Map<Seq<char>, TomlItem>, r: Result<Config, ConfigError>) -> bool {
    exists|options: ConfigOptions|
        #![trigger read_from(options, items)]
        read_from(options, items) && options.results_in(r)
}

/// The configuration that the TOML document `text` stands for: a text that
/// is no TOML document is refused; any other is read option by option, and
/// what it says is refused or made a configuration as [`Config::from`]
/// does.
pub fn init_from_toml(text: &str) -> (r: Result<Config, ConfigError>)
    ensures
        toml_document(text@) is None ==> r == Err::<Config, ConfigError>(ConfigError::Syntax),
        toml_document(text@) matches Some(items) ==> made_from(items, r),
{
    match toml_parse(text) {
        Err(_) => Err(ConfigError::Syntax),
        Ok(table) => {
            let options = read_options(&table);
            let ghost given = options;
            let r = Config::from(options);
            assert(read_from(given, table_items(table)) && given.results_in(r));
            r
        },
    }
}

} // verus!
